//! Resolution state of device-side objects, indexed by token.

use vstd::prelude::*;
use crate::{DeviceError, Token};
use crate::device::{ArrayBuffer, Buffer, FrameBuffer, Reply, Sampler, Shader, Texture};
use crate::device::shade::{CreateShaderError, ProgramMeta};

verus! {

/// Resolution state of one creation request.
///
/// A slot starts `Pending` and is moved to `Loaded` or `Failed` by the reply
/// that answers the request.
#[derive(Clone, Copy, Debug, PartialEq, Eq)]
pub enum Future<T, E> {
    /// The request was sent and no reply has arrived yet.
    Pending,
    /// The device created the object and returned its handle.
    Loaded(T),
    /// The device refused the request.
    Failed(E),
}

impl<T, E> Future<T, E> {
    /// Whether no reply has been recorded in this slot.
    pub fn is_pending(&self) -> (b: bool)
        ensures
            b == (*self is Pending),
    {
        match self {
            Future::Pending => true,
            _ => false,
        }
    }

    /// The loaded value of a slot that is known to be `Loaded`.
    pub fn unwrap(&self) -> (value: &T)
        requires
            *self is Loaded,
        ensures
            *self == Future::<T, E>::Loaded(*value),
    {
        match self {
            Future::Loaded(value) => value,
            _ => vstd::pervasive::unreached(),
        }
    }
}

/// The kinds of device-side objects. Each kind has a token space of its own.
#[derive(Clone, Copy, Debug, PartialEq, Eq)]
pub enum Kind {
    Buffer,
    ArrayBuffer,
    Shader,
    Program,
    Texture,
    Sampler,
    FrameBuffer,
}

/// The state a reply leaves in the slot it addresses.
pub open spec fn settled<T, E>(result: Result<T, E>) -> Future<T, E> {
    match result {
        Ok(value) => Future::Loaded(value),
        Err(error) => Future::Failed(error),
    }
}

/// The content of one slot, whatever its kind.
pub enum Slot {
    Buffer(Future<Buffer, ()>),
    ArrayBuffer(Future<ArrayBuffer, ()>),
    Shader(Future<Shader, CreateShaderError>),
    Program(Future<ProgramMeta, ()>),
    Texture(Future<Texture, ()>),
    Sampler(Future<Sampler, ()>),
    FrameBuffer(Future<FrameBuffer, ()>),
}

impl Slot {
    pub open spec fn is_pending(self) -> bool {
        match self {
            Slot::Buffer(f) => f is Pending,
            Slot::ArrayBuffer(f) => f is Pending,
            Slot::Shader(f) => f is Pending,
            Slot::Program(f) => f is Pending,
            Slot::Texture(f) => f is Pending,
            Slot::Sampler(f) => f is Pending,
            Slot::FrameBuffer(f) => f is Pending,
        }
    }
}

/// The kind of object a reply is about.
pub open spec fn reply_kind(reply: Reply) -> Kind {
    match reply {
        Reply::ReplyNewBuffer(..) => Kind::Buffer,
        Reply::ReplyNewArrayBuffer(..) => Kind::ArrayBuffer,
        Reply::ReplyNewShader(..) => Kind::Shader,
        Reply::ReplyNewProgram(..) => Kind::Program,
        Reply::ReplyNewFrameBuffer(..) => Kind::FrameBuffer,
        Reply::ReplyNewTexture(..) => Kind::Texture,
        Reply::ReplyNewSampler(..) => Kind::Sampler,
    }
}

/// The token a reply answers.
pub open spec fn reply_token(reply: Reply) -> Token {
    match reply {
        Reply::ReplyNewBuffer(token, _) => token,
        Reply::ReplyNewArrayBuffer(token, _) => token,
        Reply::ReplyNewShader(token, _) => token,
        Reply::ReplyNewProgram(token, _) => token,
        Reply::ReplyNewFrameBuffer(token, _) => token,
        Reply::ReplyNewTexture(token, _) => token,
        Reply::ReplyNewSampler(token, _) => token,
    }
}

/// The slot content a reply asks for.
pub open spec fn reply_slot(reply: Reply) -> Slot {
    match reply {
        Reply::ReplyNewBuffer(_, result) => Slot::Buffer(settled(result)),
        Reply::ReplyNewArrayBuffer(_, result) => Slot::ArrayBuffer(settled(result)),
        Reply::ReplyNewShader(_, result) => Slot::Shader(settled(result)),
        Reply::ReplyNewProgram(_, result) => Slot::Program(settled(result)),
        Reply::ReplyNewFrameBuffer(_, result) => Slot::FrameBuffer(settled(result)),
        Reply::ReplyNewTexture(_, texture) => Slot::Texture(Future::Loaded(texture)),
        Reply::ReplyNewSampler(_, sampler) => Slot::Sampler(Future::Loaded(sampler)),
    }
}

/// The error a reply reports, if it reports a failure.
pub open spec fn reply_failure(reply: Reply) -> Option<DeviceError> {
    match reply {
        Reply::ReplyNewBuffer(token, Err(_)) => Some(DeviceError::ErrorNewBuffer(token)),
        Reply::ReplyNewArrayBuffer(_, Err(_)) => Some(DeviceError::ErrorNewArrayBuffer),
        Reply::ReplyNewShader(token, Err(error)) => Some(DeviceError::ErrorNewShader(token, error)),
        Reply::ReplyNewProgram(token, Err(_)) => Some(DeviceError::ErrorNewProgram(token)),
        Reply::ReplyNewFrameBuffer(_, Err(_)) => Some(DeviceError::ErrorNewFrameBuffer),
        _ => None,
    }
}

/// Mathematical content of a `Cache`: one sequence of slots per kind, indexed
/// by token.
pub struct Tables {
    pub buffers: Seq<Future<Buffer, ()>>,
    pub array_buffers: Seq<Future<ArrayBuffer, ()>>,
    pub shaders: Seq<Future<Shader, CreateShaderError>>,
    pub programs: Seq<Future<ProgramMeta, ()>>,
    pub textures: Seq<Future<Texture, ()>>,
    pub samplers: Seq<Future<Sampler, ()>>,
    pub frame_buffers: Seq<Future<FrameBuffer, ()>>,
}

impl Tables {
    /// Tables without any slot.
    pub open spec fn empty() -> Tables {
        Tables {
            buffers: Seq::empty(),
            array_buffers: Seq::empty(),
            shaders: Seq::empty(),
            programs: Seq::empty(),
            textures: Seq::empty(),
            samplers: Seq::empty(),
            frame_buffers: Seq::empty(),
        }
    }

    /// Number of tokens handed out so far for `kind`, which is also the next
    /// token of that kind.
    pub open spec fn len(self, kind: Kind) -> nat {
        match kind {
            Kind::Buffer => self.buffers.len(),
            Kind::ArrayBuffer => self.array_buffers.len(),
            Kind::Shader => self.shaders.len(),
            Kind::Program => self.programs.len(),
            Kind::Texture => self.textures.len(),
            Kind::Sampler => self.samplers.len(),
            Kind::FrameBuffer => self.frame_buffers.len(),
        }
    }

    /// The slot of `token` in the table of `kind`.
    pub open spec fn slot(self, kind: Kind, token: int) -> Slot
        recommends
            0 <= token < self.len(kind),
    {
        match kind {
            Kind::Buffer => Slot::Buffer(self.buffers[token]),
            Kind::ArrayBuffer => Slot::ArrayBuffer(self.array_buffers[token]),
            Kind::Shader => Slot::Shader(self.shaders[token]),
            Kind::Program => Slot::Program(self.programs[token]),
            Kind::Texture => Slot::Texture(self.textures[token]),
            Kind::Sampler => Slot::Sampler(self.samplers[token]),
            Kind::FrameBuffer => Slot::FrameBuffer(self.frame_buffers[token]),
        }
    }

    /// Whether `token` was handed out for `kind`.
    pub open spec fn has(self, kind: Kind, token: int) -> bool {
        0 <= token < self.len(kind)
    }

    /// Whether `token` was handed out for `kind` and has been answered.
    pub open spec fn resolved(self, kind: Kind, token: int) -> bool {
        self.has(kind, token) && !self.slot(kind, token).is_pending()
    }

    /// Whether a reply addresses a token that was handed out.
    pub open spec fn knows(self, reply: Reply) -> bool {
        self.has(reply_kind(reply), reply_token(reply) as int)
    }

    /// The tables after a new token of `kind` was handed out: its slot is
    /// appended as `Pending`.
    pub open spec fn reserve(self, kind: Kind) -> Tables {
        match kind {
            Kind::Buffer => Tables { buffers: self.buffers.push(Future::Pending), ..self },
            Kind::ArrayBuffer => Tables {
                array_buffers: self.array_buffers.push(Future::Pending),
                ..self
            },
            Kind::Shader => Tables { shaders: self.shaders.push(Future::Pending), ..self },
            Kind::Program => Tables { programs: self.programs.push(Future::Pending), ..self },
            Kind::Texture => Tables { textures: self.textures.push(Future::Pending), ..self },
            Kind::Sampler => Tables { samplers: self.samplers.push(Future::Pending), ..self },
            Kind::FrameBuffer => Tables {
                frame_buffers: self.frame_buffers.push(Future::Pending),
                ..self
            },
        }
    }

    /// The tables after a reply was applied: the slot it addresses holds what
    /// the reply carries, and every other slot is as before.
    pub open spec fn apply(self, reply: Reply) -> Tables {
        match reply {
            Reply::ReplyNewBuffer(token, result) => Tables {
                buffers: self.buffers.update(token as int, settled(result)),
                ..self
            },
            Reply::ReplyNewArrayBuffer(token, result) => Tables {
                array_buffers: self.array_buffers.update(token as int, settled(result)),
                ..self
            },
            Reply::ReplyNewShader(token, result) => Tables {
                shaders: self.shaders.update(token as int, settled(result)),
                ..self
            },
            Reply::ReplyNewProgram(token, result) => Tables {
                programs: self.programs.update(token as int, settled(result)),
                ..self
            },
            Reply::ReplyNewFrameBuffer(token, result) => Tables {
                frame_buffers: self.frame_buffers.update(token as int, settled(result)),
                ..self
            },
            Reply::ReplyNewTexture(token, texture) => Tables {
                textures: self.textures.update(token as int, Future::Loaded(texture)),
                ..self
            },
            Reply::ReplyNewSampler(token, sampler) => Tables {
                samplers: self.samplers.update(token as int, Future::Loaded(sampler)),
                ..self
            },
        }
    }
}

/// Token-indexed tables holding the resolution state of every device-side
/// object, one table per kind. Tables only grow, and a token is the index of
/// its slot.
pub struct Cache {
    pub buffers: Vec<Future<Buffer, ()>>,
    pub array_buffers: Vec<Future<ArrayBuffer, ()>>,
    pub shaders: Vec<Future<Shader, CreateShaderError>>,
    pub programs: Vec<Future<ProgramMeta, ()>>,
    pub textures: Vec<Future<Texture, ()>>,
    pub samplers: Vec<Future<Sampler, ()>>,
    pub frame_buffers: Vec<Future<FrameBuffer, ()>>,
}

impl View for Cache {
    type V = Tables;

    open spec fn view(&self) -> Tables {
        Tables {
            buffers: self.buffers@,
            array_buffers: self.array_buffers@,
            shaders: self.shaders@,
            programs: self.programs@,
            textures: self.textures@,
            samplers: self.samplers@,
            frame_buffers: self.frame_buffers@,
        }
    }
}

impl Cache {
    /// A cache without any slot.
    pub fn new() -> (cache: Cache)
        ensures
            cache@ == Tables::empty(),
    {
        Cache {
            buffers: Vec::new(),
            array_buffers: Vec::new(),
            shaders: Vec::new(),
            programs: Vec::new(),
            textures: Vec::new(),
            samplers: Vec::new(),
            frame_buffers: Vec::new(),
        }
    }

    /// Number of tokens handed out so far for `kind`.
    pub fn len(&self, kind: Kind) -> (n: usize)
        ensures
            n == self@.len(kind),
    {
        match kind {
            Kind::Buffer => self.buffers.len(),
            Kind::ArrayBuffer => self.array_buffers.len(),
            Kind::Shader => self.shaders.len(),
            Kind::Program => self.programs.len(),
            Kind::Texture => self.textures.len(),
            Kind::Sampler => self.samplers.len(),
            Kind::FrameBuffer => self.frame_buffers.len(),
        }
    }

    /// Hands out the next token of `kind` and appends its slot as `Pending`.
    pub fn create_slot(&mut self, kind: Kind) -> (token: Token)
        ensures
            token == old(self)@.len(kind),
            final(self)@ == old(self)@.reserve(kind),
    {
        match kind {
            Kind::Buffer => {
                let token = self.buffers.len();
                self.buffers.push(Future::Pending);
                token
            },
            Kind::ArrayBuffer => {
                let token = self.array_buffers.len();
                self.array_buffers.push(Future::Pending);
                token
            },
            Kind::Shader => {
                let token = self.shaders.len();
                self.shaders.push(Future::Pending);
                token
            },
            Kind::Program => {
                let token = self.programs.len();
                self.programs.push(Future::Pending);
                token
            },
            Kind::Texture => {
                let token = self.textures.len();
                self.textures.push(Future::Pending);
                token
            },
            Kind::Sampler => {
                let token = self.samplers.len();
                self.samplers.push(Future::Pending);
                token
            },
            Kind::FrameBuffer => {
                let token = self.frame_buffers.len();
                self.frame_buffers.push(Future::Pending);
                token
            },
        }
    }

    /// Whether the slot of `token` in the table of `kind` is still waiting
    /// for its reply.
    pub fn is_pending(&self, kind: Kind, token: Token) -> (b: bool)
        requires
            self@.has(kind, token as int),
        ensures
            b == self@.slot(kind, token as int).is_pending(),
    {
        match kind {
            Kind::Buffer => self.buffers[token].is_pending(),
            Kind::ArrayBuffer => self.array_buffers[token].is_pending(),
            Kind::Shader => self.shaders[token].is_pending(),
            Kind::Program => self.programs[token].is_pending(),
            Kind::Texture => self.textures[token].is_pending(),
            Kind::Sampler => self.samplers[token].is_pending(),
            Kind::FrameBuffer => self.frame_buffers[token].is_pending(),
        }
    }

    /// Whether a reply addresses a token that this cache handed out.
    pub fn knows(&self, reply: &Reply) -> (b: bool)
        ensures
            b == self@.knows(*reply),
    {
        match reply {
            Reply::ReplyNewBuffer(token, _) => *token < self.buffers.len(),
            Reply::ReplyNewArrayBuffer(token, _) => *token < self.array_buffers.len(),
            Reply::ReplyNewShader(token, _) => *token < self.shaders.len(),
            Reply::ReplyNewProgram(token, _) => *token < self.programs.len(),
            Reply::ReplyNewFrameBuffer(token, _) => *token < self.frame_buffers.len(),
            Reply::ReplyNewTexture(token, _) => *token < self.textures.len(),
            Reply::ReplyNewSampler(token, _) => *token < self.samplers.len(),
        }
    }

    /// Applies one device reply: the slot it addresses becomes `Loaded` with
    /// the handle it carries or `Failed` with its error. A failure is also
    /// returned, classified, for the caller to queue.
    pub fn process(&mut self, reply: Reply) -> (r: Result<(), DeviceError>)
        requires
            old(self)@.knows(reply),
        ensures
            final(self)@ == old(self)@.apply(reply),
            r == match reply_failure(reply) {
                Some(error) => Err::<(), DeviceError>(error),
                None => Ok(()),
            },
    {
        match reply {
            Reply::ReplyNewBuffer(token, result) => match result {
                Ok(buffer) => {
                    self.buffers.set(token, Future::Loaded(buffer));
                    Ok(())
                },
                Err(e) => {
                    self.buffers.set(token, Future::Failed(e));
                    Err(DeviceError::ErrorNewBuffer(token))
                },
            },
            Reply::ReplyNewArrayBuffer(token, result) => match result {
                Ok(vao) => {
                    self.array_buffers.set(token, Future::Loaded(vao));
                    Ok(())
                },
                Err(e) => {
                    self.array_buffers.set(token, Future::Failed(e));
                    Err(DeviceError::ErrorNewArrayBuffer)
                },
            },
            Reply::ReplyNewShader(token, result) => match result {
                Ok(shader) => {
                    self.shaders.set(token, Future::Loaded(shader));
                    Ok(())
                },
                Err(e) => {
                    let copy = e.duplicate();
                    self.shaders.set(token, Future::Failed(e));
                    Err(DeviceError::ErrorNewShader(token, copy))
                },
            },
            Reply::ReplyNewProgram(token, result) => match result {
                Ok(meta) => {
                    self.programs.set(token, Future::Loaded(meta));
                    Ok(())
                },
                Err(e) => {
                    self.programs.set(token, Future::Failed(e));
                    Err(DeviceError::ErrorNewProgram(token))
                },
            },
            Reply::ReplyNewFrameBuffer(token, result) => match result {
                Ok(fbo) => {
                    self.frame_buffers.set(token, Future::Loaded(fbo));
                    Ok(())
                },
                Err(e) => {
                    self.frame_buffers.set(token, Future::Failed(e));
                    Err(DeviceError::ErrorNewFrameBuffer)
                },
            },
            Reply::ReplyNewTexture(token, texture) => {
                self.textures.set(token, Future::Loaded(texture));
                Ok(())
            },
            Reply::ReplyNewSampler(token, sampler) => {
                self.samplers.set(token, Future::Loaded(sampler));
                Ok(())
            },
        }
    }
}

/// Handing out a token keeps every token that was handed out before.
pub proof fn lemma_reserve(tables: Tables, kind: Kind)
    ensures
        forall|other: Kind|
            #[trigger] tables.reserve(kind).len(other) == tables.len(other) + if other == kind {
                1int
            } else {
                0int
            },
        forall|other: Kind, token: int|
            tables.has(other, token) ==> #[trigger] tables.reserve(kind).slot(other, token)
                == tables.slot(other, token),
        tables.reserve(kind).slot(kind, tables.len(kind) as int).is_pending(),
        forall|reply: Reply| tables.knows(reply) ==> #[trigger] tables.reserve(kind).knows(reply),
{
}

/// A reply leaves every table at its size, leaves answered slots answered,
/// and changes no slot but the one it addresses.
pub proof fn lemma_apply(tables: Tables, reply: Reply)
    requires
        tables.knows(reply),
    ensures
        forall|kind: Kind| #[trigger] tables.apply(reply).len(kind) == tables.len(kind),
        forall|kind: Kind, token: int| #[trigger]
            tables.resolved(kind, token) ==> tables.apply(reply).resolved(kind, token),
        forall|kind: Kind, token: int|
            tables.has(kind, token) && !(kind == reply_kind(reply) && token == reply_token(reply))
                ==> #[trigger] tables.apply(reply).slot(kind, token) == tables.slot(kind, token),
        tables.apply(reply).slot(reply_kind(reply), reply_token(reply) as int) == reply_slot(
            reply,
        ),
        tables.apply(reply).resolved(reply_kind(reply), reply_token(reply) as int),
{
}

} // verus!
