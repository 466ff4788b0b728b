//! The renderer: creation of device-side objects and the queue of requests
//! for the device.

use vstd::prelude::*;
use crate::{BufferHandle, DeviceError, ProgramHandle, SamplerHandle, ShaderHandle, TextureHandle};
use crate::device::{Blob, CallRequest, CastRequest, FrameBuffer, Reply, Request, Shader};
use crate::device::shade::{ProgramMeta, ShaderSource, Stage};
use crate::device::tex::{ImageInfo, SamplerInfo, TextureInfo};
use crate::dispatcher::{lemma_demanded, lemma_demanded_twice, Dispatcher, Mail};
use crate::mesh::{AttributeFormat, Mesh};
use crate::resource::{lemma_reserve, Cache, Future, Kind, Tables};
use crate::shade::{
    create_link, first_unused, lemma_slots_start, links, missing, param_error, plan_of,
    provides_block, provides_texture, provides_uniform, MetaSink, Param, ParameterLinkError,
    ShaderBundle, MAX_PARAMETERS,
};
use crate::target::Frame;

verus! {

/// How an operation that may have to wait for the device ended.
#[derive(Clone, Copy, Debug, PartialEq, Eq)]
pub enum Wait<T> {
    /// An object the operation needs is unanswered and no reply is waiting.
    /// Nothing was sent; the caller delivers more replies and calls again.
    Blocked,
    /// The device refused an object the operation cannot do without.
    /// Nothing was sent.
    Refused,
    /// The operation ran to its end.
    Done(T),
}

/// Graphics state that the device was last told about.
#[derive(Clone, Copy, Debug, PartialEq, Eq)]
pub struct State {
    /// The frame that was bound last.
    pub frame: Frame,
}

/// Mathematical content of a `Renderer`.
pub struct Model {
    pub mail: Mail,
    /// Requests issued and not yet handed over, oldest first.
    pub sent: Seq<Request>,
    pub default_frame_buffer: FrameBuffer,
    /// The frame that was bound last.
    pub frame: Frame,
}

impl Model {
    /// The waiting replies address tokens that were handed out, and the
    /// two objects shared by all draw calls have their tokens.
    pub open spec fn wf(self) -> bool {
        &&& self.mail.wf()
        &&& self.mail.tables.has(Kind::ArrayBuffer, 0)
        &&& self.mail.tables.has(Kind::FrameBuffer, 0)
    }

    /// This model with `requests` issued after those that are queued.
    pub open spec fn send(self, requests: Seq<Request>) -> Model {
        Model { sent: self.sent + requests, ..self }
    }

    /// This model after a token of `kind` was handed out.
    pub open spec fn reserve(self, kind: Kind) -> Model {
        Model { mail: Mail { tables: self.mail.tables.reserve(kind), ..self.mail }, ..self }
    }
}

/// Turns calls into requests for the device and keeps track of what
/// the device answered.
///
/// The renderer performs no input or output. Requests are queued in
/// `device_tx` until `take_requests` hands them over, and replies enter
/// through `deliver`.
pub struct Renderer {
    pub dispatcher: Dispatcher,
    /// Requests for the device, oldest first.
    pub device_tx: Vec<Request>,
    /// The default frame buffer object for drawing.
    pub default_frame_buffer: FrameBuffer,
    /// Current state.
    pub state: State,
}

impl View for Renderer {
    type V = Model;

    open spec fn view(&self) -> Model {
        Model {
            mail: self.dispatcher@,
            sent: self.device_tx@,
            default_frame_buffer: self.default_frame_buffer,
            frame: self.state.frame,
        }
    }
}

/// The requests a new renderer starts with: the creation of the vertex
/// layout object and of the frame buffer object shared by all draw calls.
pub open spec fn initial_requests() -> Seq<Request> {
    seq![
        Request::Call(0, CallRequest::CreateArrayBuffer),
        Request::Call(0, CallRequest::CreateFrameBuffer),
    ]
}

impl Renderer {
    /// A renderer that has asked the device for the two objects shared by
    /// all draw calls, under token 0 of their kinds.
    pub fn new() -> (renderer: Renderer)
        ensures
            renderer@.wf(),
            renderer@.mail.channel == Seq::<Reply>::empty(),
            renderer@.mail.errors == Seq::<DeviceError>::empty(),
            renderer@.mail.tables == Tables::empty().reserve(Kind::ArrayBuffer).reserve(
                Kind::FrameBuffer,
            ),
            renderer@.sent == initial_requests(),
            renderer@.default_frame_buffer == 0,
            renderer@.frame.default_target(),
    {
        let mut res = Cache::new();
        res.create_slot(Kind::ArrayBuffer);
        res.create_slot(Kind::FrameBuffer);
        let mut device_tx: Vec<Request> = Vec::new();
        device_tx.push(Request::Call(0, CallRequest::CreateArrayBuffer));
        device_tx.push(Request::Call(0, CallRequest::CreateFrameBuffer));
        proof {
            assert(device_tx@ =~= initial_requests());
        }
        Renderer {
            dispatcher: Dispatcher::new(res),
            device_tx,
            default_frame_buffer: 0,
            state: State { frame: Frame::new() },
        }
    }

    /// Asks the device to do something that needs no answer.
    pub fn cast(&mut self, msg: CastRequest)
        ensures
            final(self)@ == old(self)@.send(seq![Request::Cast(msg)]),
    {
        self.device_tx.push(Request::Cast(msg));
        proof {
            assert(self.device_tx@ =~= old(self).device_tx@ + seq![Request::Cast(msg)]);
        }
    }

    /// Hands over the requests issued since the last call, oldest first, for
    /// the caller to send to the device.
    pub fn take_requests(&mut self) -> (requests: Vec<Request>)
        ensures
            requests@ == old(self)@.sent,
            final(self)@ == (Model { sent: Seq::empty(), ..old(self)@ }),
    {
        let mut requests: Vec<Request> = Vec::new();
        std::mem::swap(&mut requests, &mut self.device_tx);
        requests
    }

    /// Whether `reply` addresses a token that was handed out, so that it can
    /// be delivered.
    pub fn accepts(&self, reply: &Reply) -> (b: bool)
        ensures
            b == self@.mail.tables.knows(*reply),
    {
        self.dispatcher.accepts(reply)
    }

    /// Takes in a reply received from the device. It is applied when an
    /// operation waits for the device.
    pub fn deliver(&mut self, reply: Reply)
        requires
            old(self)@.wf(),
            old(self)@.mail.tables.knows(reply),
        ensures
            final(self)@.wf(),
            final(self)@ == (Model {
                mail: Mail { channel: old(self)@.mail.channel.push(reply), ..old(self)@.mail },
                ..old(self)@
            }),
    {
        self.dispatcher.deliver(reply);
    }

    /// The failures that the device reported since the last call, in the
    /// order in which their replies were applied. The queue is left empty.
    pub fn errors(&mut self) -> (errors: Vec<DeviceError>)
        ensures
            errors@ == old(self)@.mail.errors,
            final(self)@ == (Model {
                mail: Mail { errors: Seq::empty(), ..old(self)@.mail },
                ..old(self)@
            }),
    {
        let mut errors: Vec<DeviceError> = Vec::new();
        std::mem::swap(&mut errors, &mut self.dispatcher.errors);
        errors
    }

    /// Finishes a frame: asks the device to present it. The device answers
    /// with one acknowledgement once it has consumed the frame.
    pub fn end_frame(&mut self)
        ensures
            final(self)@ == old(self)@.send(seq![Request::SwapBuffers]),
    {
        self.device_tx.push(Request::SwapBuffers);
        proof {
            assert(self.device_tx@ =~= old(self).device_tx@ + seq![Request::SwapBuffers]);
        }
    }

    /// Asks the device for a new buffer, optionally filled with `data`, and
    /// returns its token without waiting for the device.
    pub fn create_buffer(&mut self, data: Option<Blob>) -> (token: BufferHandle)
        requires
            old(self)@.wf(),
        ensures
            final(self)@.wf(),
            token == old(self)@.mail.tables.len(Kind::Buffer),
            final(self)@ == old(self)@.reserve(Kind::Buffer).send(
                seq![Request::Call(token, CallRequest::CreateBuffer(data))],
            ),
    {
        proof {
            lemma_reserve(self@.mail.tables, Kind::Buffer);
        }
        let token = self.dispatcher.resource.create_slot(Kind::Buffer);
        self.device_tx.push(Request::Call(token, CallRequest::CreateBuffer(data)));
        proof {
            assert(self.device_tx@ =~= old(self).device_tx@ + seq![
                Request::Call(token, CallRequest::CreateBuffer(data)),
            ]);
        }
        token
    }

    /// Asks the device for a buffer holding the vertices `data`, laid out
    /// as `format` says, and returns the mesh over that buffer.
    pub fn create_mesh(&mut self, format: &Vec<AttributeFormat>, data: Blob, num_vertices: usize) -> (mesh:
        Mesh)
        requires
            old(self)@.wf(),
            num_vertices < 0x10000,
        ensures
            final(self)@.wf(),
            final(self)@ == old(self)@.reserve(Kind::Buffer).send(
                seq![
                    Request::Call(
                        old(self)@.mail.tables.len(Kind::Buffer) as usize,
                        CallRequest::CreateBuffer(Some(data)),
                    ),
                ],
            ),
            mesh.num_vertices == num_vertices,
            mesh.attributes@.len() == format@.len(),
            forall|i: int|
                0 <= i < format@.len() ==> #[trigger] mesh.attributes@[i]
                    == crate::mesh::attribute_in(
                    format@[i],
                    old(self)@.mail.tables.len(Kind::Buffer) as usize,
                ),
    {
        let buf = self.create_buffer(Some(data));
        Mesh::from(format, buf, num_vertices as u16)
    }

    /// Asks the device for a new texture and returns its token without
    /// waiting for the device.
    pub fn create_texture(&mut self, info: TextureInfo) -> (token: TextureHandle)
        requires
            old(self)@.wf(),
        ensures
            final(self)@.wf(),
            token == old(self)@.mail.tables.len(Kind::Texture),
            final(self)@ == old(self)@.reserve(Kind::Texture).send(
                seq![Request::Call(token, CallRequest::CreateTexture(info))],
            ),
    {
        proof {
            lemma_reserve(self@.mail.tables, Kind::Texture);
        }
        let token = self.dispatcher.resource.create_slot(Kind::Texture);
        self.device_tx.push(Request::Call(token, CallRequest::CreateTexture(info)));
        proof {
            assert(self.device_tx@ =~= old(self).device_tx@ + seq![
                Request::Call(token, CallRequest::CreateTexture(info)),
            ]);
        }
        token
    }

    /// Asks the device for a new sampler and returns its token without
    /// waiting for the device.
    pub fn create_sampler(&mut self, info: SamplerInfo) -> (token: SamplerHandle)
        requires
            old(self)@.wf(),
        ensures
            final(self)@.wf(),
            token == old(self)@.mail.tables.len(Kind::Sampler),
            final(self)@ == old(self)@.reserve(Kind::Sampler).send(
                seq![Request::Call(token, CallRequest::CreateSampler(info))],
            ),
    {
        proof {
            lemma_reserve(self@.mail.tables, Kind::Sampler);
        }
        let token = self.dispatcher.resource.create_slot(Kind::Sampler);
        self.device_tx.push(Request::Call(token, CallRequest::CreateSampler(info)));
        proof {
            assert(self.device_tx@ =~= old(self).device_tx@ + seq![
                Request::Call(token, CallRequest::CreateSampler(info)),
            ]);
        }
        token
    }
}

/// The two shaders of a program that is being created.
#[derive(Clone, Copy, Debug, PartialEq, Eq)]
pub struct PendingProgram {
    pub vertex: ShaderHandle,
    pub fragment: ShaderHandle,
}

/// For each uniform of a program, whether one of `params` is meant for it.
pub open spec fn provided_uniforms(meta: ProgramMeta, params: Seq<Param>) -> Seq<bool> {
    Seq::new(
        meta.uniforms@.len(),
        |i: int| provides_uniform(meta, params, params.len() as int, i),
    )
}

/// For each uniform block of a program, whether one of `params` is meant
/// for it.
pub open spec fn provided_blocks(meta: ProgramMeta, params: Seq<Param>) -> Seq<bool> {
    Seq::new(meta.blocks@.len(), |i: int| provides_block(meta, params, params.len() as int, i))
}

/// For each texture sampler of a program, whether one of `params` is meant
/// for it.
pub open spec fn provided_textures(meta: ProgramMeta, params: Seq<Param>) -> Seq<bool> {
    Seq::new(
        meta.textures@.len(),
        |i: int| provides_texture(meta, params, params.len() as int, i),
    )
}

/// Whether `r` is what bundling `params` with the loaded program `meta`
/// under token `prog` gives.
///
/// A parameter the program declares no variable for fails the bundle as
/// unused, the first such parameter being reported. Otherwise a variable of
/// the program that no parameter is meant for fails it as missing, the
/// first such variable being reported. Otherwise the bundle holds the
/// parameters and their plan.
pub open spec fn bundled(
    meta: ProgramMeta,
    prog: ProgramHandle,
    params: Seq<Param>,
    r: Result<ShaderBundle, ParameterLinkError>,
) -> bool {
    if !links(meta, params) {
        r matches Err(ParameterLinkError::ErrorUnusedParameter(error)) && exists|index: int|
            first_unused(meta, params, index) && error == param_error(params[index])
    } else {
        match missing(
            meta,
            provided_uniforms(meta, params),
            provided_blocks(meta, params),
            provided_textures(meta, params),
        ) {
            Some(error) => r == Err::<ShaderBundle, ParameterLinkError>(
                ParameterLinkError::ErrorMissingParameter(error),
            ),
            None => {
                &&& r matches Ok(bundle)
                &&& bundle.program == prog
                &&& bundle.data@ == params
                &&& bundle.plan@ == plan_of(meta, params)
            },
        }
    }
}

fn copy_params(data: &Vec<Param>) -> (copy: Vec<Param>)
    ensures
        copy@ == data@,
{
    let mut copy: Vec<Param> = Vec::new();
    let mut i: usize = 0;
    while i < data.len()
        invariant
            i <= data@.len(),
            copy@ == data@.take(i as int),
        decreases data@.len() - i,
    {
        copy.push(Param { name: data[i].name.clone(), value: data[i].value });
        proof {
            assert(copy@ =~= data@.take(i + 1));
        }
        i += 1;
    }
    proof {
        assert(data@.take(i as int) =~= data@);
    }
    copy
}

impl Renderer {
    fn update_buffer(&mut self, handle: BufferHandle, data: Blob) -> (r: Wait<()>)
        requires
            old(self)@.wf(),
            old(self)@.mail.tables.has(Kind::Buffer, handle as int),
        ensures
            final(self)@.wf(),
            final(self)@.mail == old(self)@.mail.demanded(set![(Kind::Buffer, handle as int)]),
            final(self)@.default_frame_buffer == old(self)@.default_frame_buffer,
            final(self)@.frame == old(self)@.frame,
            final(self)@.sent == match final(self)@.mail.tables.buffers[handle as int] {
                Future::Loaded(buffer) => old(self)@.sent.push(
                    Request::Cast(CastRequest::UpdateBuffer(buffer, data)),
                ),
                _ => old(self)@.sent,
            },
            r == match final(self)@.mail.tables.buffers[handle as int] {
                Future::Pending => Wait::Blocked,
                Future::Failed(_) => Wait::Refused,
                Future::Loaded(_) => Wait::Done(()),
            },
            r is Blocked ==> final(self)@.mail.channel.len() == 0,
    {
        match self.dispatcher.get_buffer(handle) {
            Future::Pending => Wait::Blocked,
            Future::Failed(_) => Wait::Refused,
            Future::Loaded(buffer) => {
                self.device_tx.push(Request::Cast(CastRequest::UpdateBuffer(buffer, data)));
                Wait::Done(())
            },
        }
    }

    /// Waits for the buffer and asks the device to replace its content with
    /// the elements in `data`.
    pub fn update_buffer_vec(&mut self, handle: BufferHandle, data: Blob) -> (r: Wait<()>)
        requires
            old(self)@.wf(),
            old(self)@.mail.tables.has(Kind::Buffer, handle as int),
        ensures
            final(self)@.wf(),
            final(self)@.mail == old(self)@.mail.demanded(set![(Kind::Buffer, handle as int)]),
            final(self)@.default_frame_buffer == old(self)@.default_frame_buffer,
            final(self)@.frame == old(self)@.frame,
            final(self)@.sent == match final(self)@.mail.tables.buffers[handle as int] {
                Future::Loaded(buffer) => old(self)@.sent.push(
                    Request::Cast(CastRequest::UpdateBuffer(buffer, data)),
                ),
                _ => old(self)@.sent,
            },
            r == match final(self)@.mail.tables.buffers[handle as int] {
                Future::Pending => Wait::Blocked,
                Future::Failed(_) => Wait::Refused,
                Future::Loaded(_) => Wait::Done(()),
            },
            r is Blocked ==> final(self)@.mail.channel.len() == 0,
    {
        self.update_buffer(handle, data)
    }

    /// Waits for the buffer and asks the device to replace its content with
    /// the single structure in `data`.
    pub fn update_buffer_struct(&mut self, handle: BufferHandle, data: Blob) -> (r: Wait<()>)
        requires
            old(self)@.wf(),
            old(self)@.mail.tables.has(Kind::Buffer, handle as int),
        ensures
            final(self)@.wf(),
            final(self)@.mail == old(self)@.mail.demanded(set![(Kind::Buffer, handle as int)]),
            final(self)@.default_frame_buffer == old(self)@.default_frame_buffer,
            final(self)@.frame == old(self)@.frame,
            final(self)@.sent == match final(self)@.mail.tables.buffers[handle as int] {
                Future::Loaded(buffer) => old(self)@.sent.push(
                    Request::Cast(CastRequest::UpdateBuffer(buffer, data)),
                ),
                _ => old(self)@.sent,
            },
            r == match final(self)@.mail.tables.buffers[handle as int] {
                Future::Pending => Wait::Blocked,
                Future::Failed(_) => Wait::Refused,
                Future::Loaded(_) => Wait::Done(()),
            },
            r is Blocked ==> final(self)@.mail.channel.len() == 0,
    {
        self.update_buffer(handle, data)
    }

    /// Waits for the texture and asks the device to replace the region
    /// `info` of it with `data`.
    pub fn update_texture(&mut self, handle: TextureHandle, info: ImageInfo, data: Blob) -> (r: Wait<
        (),
    >)
        requires
            old(self)@.wf(),
            old(self)@.mail.tables.has(Kind::Texture, handle as int),
        ensures
            final(self)@.wf(),
            final(self)@.mail == old(self)@.mail.demanded(set![(Kind::Texture, handle as int)]),
            final(self)@.default_frame_buffer == old(self)@.default_frame_buffer,
            final(self)@.frame == old(self)@.frame,
            final(self)@.sent == match final(self)@.mail.tables.textures[handle as int] {
                Future::Loaded(texture) => old(self)@.sent.push(
                    Request::Cast(CastRequest::UpdateTexture(texture, info, data)),
                ),
                _ => old(self)@.sent,
            },
            r == match final(self)@.mail.tables.textures[handle as int] {
                Future::Pending => Wait::Blocked,
                Future::Failed(_) => Wait::Refused,
                Future::Loaded(_) => Wait::Done(()),
            },
            r is Blocked ==> final(self)@.mail.channel.len() == 0,
    {
        match self.dispatcher.get_texture(handle) {
            Future::Pending => Wait::Blocked,
            Future::Failed(_) => Wait::Refused,
            Future::Loaded(texture) => {
                self.device_tx.push(Request::Cast(CastRequest::UpdateTexture(texture, info, data)));
                Wait::Done(())
            },
        }
    }

    /// Starts the creation of a program: asks the device to compile the
    /// vertex shader and the fragment shader, in this order, under the next
    /// two shader tokens. The program itself is asked for by `link_program`,
    /// once both shaders are answered.
    pub fn create_program(&mut self, vs_src: ShaderSource, fs_src: ShaderSource) -> (pending:
        PendingProgram)
        requires
            old(self)@.wf(),
        ensures
            final(self)@.wf(),
            pending.vertex == old(self)@.mail.tables.len(Kind::Shader),
            pending.fragment == pending.vertex + 1,
            final(self)@ == old(self)@.reserve(Kind::Shader).reserve(Kind::Shader).send(
                seq![
                    Request::Call(pending.vertex, CallRequest::CreateShader(Stage::Vertex, vs_src)),
                    Request::Call(
                        pending.fragment,
                        CallRequest::CreateShader(Stage::Fragment, fs_src),
                    ),
                ],
            ),
    {
        proof {
            lemma_reserve(self@.mail.tables, Kind::Shader);
            lemma_reserve(self@.mail.tables.reserve(Kind::Shader), Kind::Shader);
        }
        let vertex = self.dispatcher.resource.create_slot(Kind::Shader);
        let fragment = self.dispatcher.resource.create_slot(Kind::Shader);
        self.device_tx.push(Request::Call(vertex, CallRequest::CreateShader(Stage::Vertex, vs_src)));
        self.device_tx.push(
            Request::Call(fragment, CallRequest::CreateShader(Stage::Fragment, fs_src)),
        );
        proof {
            assert(self.device_tx@ =~= old(self).device_tx@ + seq![
                Request::Call(vertex, CallRequest::CreateShader(Stage::Vertex, vs_src)),
                Request::Call(fragment, CallRequest::CreateShader(Stage::Fragment, fs_src)),
            ]);
        }
        PendingProgram { vertex, fragment }
    }

    /// Finishes the creation of a program: waits for its two shaders and
    /// asks the device to link them, vertex shader first, under the next
    /// program token, which is returned. The program is not waited for.
    pub fn link_program(&mut self, pending: &PendingProgram) -> (r: Wait<ProgramHandle>)
        requires
            old(self)@.wf(),
            old(self)@.mail.tables.has(Kind::Shader, pending.vertex as int),
            old(self)@.mail.tables.has(Kind::Shader, pending.fragment as int),
        ensures
            final(self)@.wf(),
            final(self)@.default_frame_buffer == old(self)@.default_frame_buffer,
            final(self)@.frame == old(self)@.frame,
            ({
                let waited = old(self)@.mail.demanded(
                    set![(Kind::Shader, pending.vertex as int), (Kind::Shader, pending.fragment as int)],
                );
                let vertex = waited.tables.shaders[pending.vertex as int];
                let fragment = waited.tables.shaders[pending.fragment as int];
                match r {
                    Wait::Blocked => {
                        &&& vertex is Pending || fragment is Pending
                        &&& final(self)@.mail == waited
                        &&& waited.channel.len() == 0
                        &&& final(self)@.sent == old(self)@.sent
                    },
                    Wait::Refused => {
                        &&& !(vertex is Pending) && !(fragment is Pending)
                        &&& vertex is Failed || fragment is Failed
                        &&& final(self)@.mail == waited
                        &&& final(self)@.sent == old(self)@.sent
                    },
                    Wait::Done(token) => {
                        &&& vertex matches Future::Loaded(vs)
                        &&& fragment matches Future::Loaded(fs)
                        &&& token == waited.tables.len(Kind::Program)
                        &&& final(self)@.mail == (Mail {
                            tables: waited.tables.reserve(Kind::Program),
                            ..waited
                        })
                        &&& final(self)@.sent.len() == old(self)@.sent.len() + 1
                        &&& final(self)@.sent.drop_last() == old(self)@.sent
                        &&& final(self)@.sent.last() matches Request::Call(
                            call,
                            CallRequest::CreateProgram(shaders),
                        )
                        &&& call == token
                        &&& shaders@ == seq![vs, fs]
                    },
                }
            }),
    {
        proof {
            lemma_demanded(self@.mail, set![(Kind::Shader, pending.vertex as int)]);
            lemma_demanded_twice(
                self@.mail,
                set![(Kind::Shader, pending.vertex as int)],
                set![(Kind::Shader, pending.fragment as int)],
            );
            assert(set![(Kind::Shader, pending.vertex as int)].union(
                set![(Kind::Shader, pending.fragment as int)],
            ) =~= set![
                (Kind::Shader, pending.vertex as int),
                (Kind::Shader, pending.fragment as int),
            ]);
        }
        self.dispatcher.demand_slot(Kind::Shader, pending.vertex);
        proof {
            lemma_demanded(self@.mail, set![(Kind::Shader, pending.fragment as int)]);
        }
        self.dispatcher.demand_slot(Kind::Shader, pending.fragment);
        let h_vs = match &self.dispatcher.resource.shaders[pending.vertex] {
            Future::Pending => {
                return Wait::Blocked;
            },
            Future::Failed(_) => None,
            Future::Loaded(shader) => Some(*shader),
        };
        let h_fs = match &self.dispatcher.resource.shaders[pending.fragment] {
            Future::Pending => {
                return Wait::Blocked;
            },
            Future::Failed(_) => None,
            Future::Loaded(shader) => Some(*shader),
        };
        match (h_vs, h_fs) {
            (Some(h_vs), Some(h_fs)) => {
                proof {
                    lemma_reserve(self@.mail.tables, Kind::Program);
                }
                let token = self.dispatcher.resource.create_slot(Kind::Program);
                let mut shaders: Vec<Shader> = Vec::new();
                shaders.push(h_vs);
                shaders.push(h_fs);
                proof {
                    assert(shaders@ =~= seq![h_vs, h_fs]);
                }
                self.device_tx.push(Request::Call(token, CallRequest::CreateProgram(shaders)));
                proof {
                    assert(self.device_tx@.drop_last() =~= old(self).device_tx@);
                }
                Wait::Done(token)
            },
            _ => Wait::Refused,
        }
    }

    /// Waits for the program `prog` and bundles it with the parameters
    /// `data`: every parameter is matched with the variable of its kind and
    /// name that the program declares, and every variable of the program
    /// has to be provided.
    pub fn bundle_program(&mut self, prog: ProgramHandle, data: &Vec<Param>) -> (r: Wait<
        Result<ShaderBundle, ParameterLinkError>,
    >)
        requires
            old(self)@.wf(),
            old(self)@.mail.tables.has(Kind::Program, prog as int),
            data@.len() <= MAX_PARAMETERS,
        ensures
            final(self)@.wf(),
            final(self)@ == (Model {
                mail: old(self)@.mail.demanded(set![(Kind::Program, prog as int)]),
                ..old(self)@
            }),
            match final(self)@.mail.tables.programs[prog as int] {
                Future::Pending => r is Blocked && final(self)@.mail.channel.len() == 0,
                Future::Failed(_) => r == Wait::Done(
                    Err::<ShaderBundle, ParameterLinkError>(ParameterLinkError::ErrorBadProgram),
                ),
                Future::Loaded(meta) => r matches Wait::Done(bundle) && bundled(
                    meta,
                    prog,
                    data@,
                    bundle,
                ),
            },
            r matches Wait::Done(Ok(bundle)) ==> bundle.wf(),
    {
        proof {
            lemma_demanded(self@.mail, set![(Kind::Program, prog as int)]);
        }
        if !self.dispatcher.demand_slot(Kind::Program, prog) {
            return Wait::Blocked;
        }
        match &self.dispatcher.resource.programs[prog] {
            Future::Loaded(m) => {
                let mut sink = MetaSink::new(m);
                let ghost fresh = sink;
                proof {
                    lemma_slots_start(*m, data@, fresh.uniforms@, fresh.blocks@, fresh.textures@);
                }
                match create_link(data, &mut sink) {
                    Ok(link) => {
                        proof {
                            assert(sink.uniforms@ =~= provided_uniforms(*m, data@));
                            assert(sink.blocks@ =~= provided_blocks(*m, data@));
                            assert(sink.textures@ =~= provided_textures(*m, data@));
                        }
                        match sink.complete() {
                            Ok(_) => Wait::Done(
                                Ok(ShaderBundle { program: prog, data: copy_params(data), plan: link }),
                            ),
                            Err(e) => Wait::Done(Err(ParameterLinkError::ErrorMissingParameter(e))),
                        }
                    },
                    Err(e) => Wait::Done(Err(ParameterLinkError::ErrorUnusedParameter(e))),
                }
            },
            _ => Wait::Done(Err(ParameterLinkError::ErrorBadProgram)),
        }
    }
}

} // verus!
