//! Draw calls: waiting for everything a draw call refers to, and the
//! requests that carry it out.

use vstd::prelude::*;
use crate::DrawError;
use crate::binding::{
    bind_plan, bundle_verdict, frame_needs, mesh_binding, mesh_loaded, plan_bindable,
    target_requests,
};
use crate::device::{CastRequest, FrameBuffer, Request};
use crate::device::target::ClearData;
use crate::dispatcher::{lemma_demanded, lemma_demanded_ready, lemma_two_waits, Needs};
use crate::mesh::{Mesh, Slice};
use crate::rast::DrawState;
use crate::renderer::{Model, Renderer, Wait};
use crate::resource::{Cache, Future, Kind, Tables};
use crate::shade::{Binding, ShaderBundle};
use crate::target::Frame;

verus! {

/// The buffers behind the first `upto` attributes of a mesh.
pub open spec fn mesh_needs(mesh: Mesh, upto: int) -> Needs {
    Set::new(
        |need: (Kind, int)|
            need.0 == Kind::Buffer && exists|i: int|
                0 <= i < upto && i < mesh.attributes@.len() && (#[trigger] mesh.attributes@[i]).buffer
                    == need.1,
    )
}

/// The index buffer of an indexed slice.
pub open spec fn slice_needs(slice: Slice) -> Needs {
    match slice {
        Slice::VertexSlice(_, _) => Set::empty(),
        Slice::IndexSlice(buffer, _, _) => set![(Kind::Buffer, buffer as int)],
    }
}

/// The buffer behind a plan entry that is a block.
pub open spec fn entry_blocks(entry: Binding) -> Needs {
    match entry {
        Binding::Block { buffer, .. } => set![(Kind::Buffer, buffer as int)],
        _ => Set::empty(),
    }
}

/// The texture and the sampler of a plan entry that is a texture.
pub open spec fn entry_textures(entry: Binding) -> Needs {
    match entry {
        Binding::Texture { texture, sampler, .. } => match sampler {
            Some(token) => set![(Kind::Texture, texture as int), (Kind::Sampler, token as int)],
            None => set![(Kind::Texture, texture as int)],
        },
        _ => Set::empty(),
    }
}

/// The buffers behind the blocks among the first `upto` entries of a plan.
pub open spec fn block_needs(plan: Seq<Binding>, upto: int) -> Needs {
    Set::new(
        |need: (Kind, int)|
            exists|i: int|
                0 <= i < upto && i < plan.len() && entry_blocks(#[trigger] plan[i]).contains(need),
    )
}

/// The textures and samplers among the first `upto` entries of a plan.
pub open spec fn texture_needs(plan: Seq<Binding>, upto: int) -> Needs {
    Set::new(
        |need: (Kind, int)|
            exists|i: int|
                0 <= i < upto && i < plan.len() && entry_textures(#[trigger] plan[i]).contains(need),
    )
}

/// Every buffer of the mesh was handed out.
pub open spec fn mesh_known(tables: Tables, mesh: Mesh) -> bool {
    forall|i: int|
        0 <= i < mesh.attributes@.len() ==> tables.has(
            Kind::Buffer,
            (#[trigger] mesh.attributes@[i]).buffer as int,
        )
}

/// The index buffer of the slice, if it has one, was handed out.
pub open spec fn slice_known(tables: Tables, slice: Slice) -> bool {
    slice matches Slice::IndexSlice(buffer, _, _) ==> tables.has(Kind::Buffer, buffer as int)
}

/// Every buffer, texture and sampler named by the plan was handed out.
pub open spec fn plan_known(tables: Tables, plan: Seq<Binding>) -> bool {
    forall|i: int|
        0 <= i < plan.len() ==> match #[trigger] plan[i] {
            Binding::Uniform { .. } => true,
            Binding::Block { buffer, .. } => tables.has(Kind::Buffer, buffer as int),
            Binding::Texture { texture, sampler, .. } => {
                &&& tables.has(Kind::Texture, texture as int)
                &&& sampler matches Some(token) ==> tables.has(Kind::Sampler, token as int)
            },
        }
}

impl Renderer {
    /// Waits for every buffer of the mesh, in the order of its attributes,
    /// and for the index buffer of the slice. Sends nothing. Returns whether
    /// all of them are answered.
    pub fn prebind_mesh(&mut self, mesh: &Mesh, slice: &Slice) -> (ready: bool)
        requires
            old(self)@.wf(),
            mesh_known(old(self)@.mail.tables, *mesh),
            slice_known(old(self)@.mail.tables, *slice),
        ensures
            final(self)@.wf(),
            final(self)@ == (Model {
                mail: old(self)@.mail.demanded(
                    mesh_needs(*mesh, mesh.attributes@.len() as int).union(slice_needs(*slice)),
                ),
                ..old(self)@
            }),
            ready == final(self)@.mail.tables.ready(
                mesh_needs(*mesh, mesh.attributes@.len() as int).union(slice_needs(*slice)),
            ),
            !ready ==> final(self)@.mail.channel.len() == 0,
    {
        let ghost origin = self@.mail;
        let mut ready = true;
        let mut i: usize = 0;
        proof {
            assert(mesh_needs(*mesh, 0) =~= Set::empty());
            assert(origin.tables.ready(Set::empty()));
        }
        while i < mesh.attributes.len()
            invariant
                i <= mesh.attributes@.len(),
                origin.wf(),
                origin == old(self)@.mail,
                mesh_known(origin.tables, *mesh),
                slice_known(origin.tables, *slice),
                forall|kind: Kind| #[trigger] self@.mail.tables.len(kind) == origin.tables.len(kind),
                self@ == (Model { mail: origin.demanded(mesh_needs(*mesh, i as int)), ..old(self)@ }),
                ready == self@.mail.tables.ready(mesh_needs(*mesh, i as int)),
                !ready ==> self@.mail.channel.len() == 0,
            decreases mesh.attributes@.len() - i,
        {
            let buffer = mesh.attributes[i].buffer;
            proof {
                assert(self@.mail.tables.len(Kind::Buffer) == origin.tables.len(Kind::Buffer));
                assert(mesh_needs(*mesh, i as int).insert((Kind::Buffer, buffer as int))
                    =~= mesh_needs(*mesh, i + 1));
            }
            ready = self.dispatcher.demand_also(
                Kind::Buffer,
                buffer,
                ready,
                Ghost(origin),
                Ghost(mesh_needs(*mesh, i as int)),
            );
            i += 1;
        }
        let ghost held = mesh_needs(*mesh, mesh.attributes@.len() as int);
        match *slice {
            Slice::IndexSlice(handle, _, _) => {
                proof {
                    assert(self@.mail.tables.len(Kind::Buffer) == origin.tables.len(Kind::Buffer));
                    assert(held.insert((Kind::Buffer, handle as int)) =~= held.union(
                        slice_needs(*slice),
                    ));
                }
                ready = self.dispatcher.demand_also(
                    Kind::Buffer,
                    handle,
                    ready,
                    Ghost(origin),
                    Ghost(held),
                );
            },
            _ => {
                proof {
                    assert(held =~= held.union(slice_needs(*slice)));
                }
            },
        }
        proof {
            lemma_demanded(origin, held.union(slice_needs(*slice)));
        }
        ready
    }
}

/// What binding a bundle waits for: the buffers behind its blocks, its
/// textures and their samplers.
pub open spec fn bundle_needs(bundle: ShaderBundle) -> Needs {
    block_needs(bundle.plan@, bundle.plan@.len() as int).union(
        texture_needs(bundle.plan@, bundle.plan@.len() as int),
    )
}

impl Renderer {
    /// Waits for everything the plan of the bundle refers to: first for the
    /// buffer behind every block, then for every texture and its sampler,
    /// each time in the order of the plan. Sends nothing. Returns whether
    /// all of them are answered.
    pub fn prebind_bundle(&mut self, bundle: &ShaderBundle) -> (ready: bool)
        requires
            old(self)@.wf(),
            plan_known(old(self)@.mail.tables, bundle.plan@),
        ensures
            final(self)@.wf(),
            final(self)@ == (Model {
                mail: old(self)@.mail.demanded(bundle_needs(*bundle)),
                ..old(self)@
            }),
            ready == final(self)@.mail.tables.ready(bundle_needs(*bundle)),
            !ready ==> final(self)@.mail.channel.len() == 0,
    {
        let ghost origin = self@.mail;
        let ghost plan = bundle.plan@;
        let mut ready = true;
        proof {
            assert(block_needs(plan, 0) =~= Set::empty());
            assert(origin.tables.ready(Set::empty()));
        }
        // buffers pass
        let mut k: usize = 0;
        while k < bundle.plan.len()
            invariant
                k <= plan.len(),
                plan == bundle.plan@,
                origin.wf(),
                origin == old(self)@.mail,
                plan_known(origin.tables, plan),
                forall|kind: Kind| #[trigger] self@.mail.tables.len(kind) == origin.tables.len(kind),
                self@ == (Model { mail: origin.demanded(block_needs(plan, k as int)), ..old(self)@ }),
                ready == self@.mail.tables.ready(block_needs(plan, k as int)),
                !ready ==> self@.mail.channel.len() == 0,
            decreases plan.len() - k,
        {
            match bundle.plan[k] {
                Binding::Block { var, buffer } => {
                    proof {
                        assert(self@.mail.tables.len(Kind::Buffer) == origin.tables.len(
                            Kind::Buffer,
                        ));
                        assert(block_needs(plan, k as int).insert((Kind::Buffer, buffer as int))
                            =~= block_needs(plan, k + 1));
                    }
                    ready = self.dispatcher.demand_also(
                        Kind::Buffer,
                        buffer,
                        ready,
                        Ghost(origin),
                        Ghost(block_needs(plan, k as int)),
                    );
                },
                _ => {
                    proof {
                        assert(block_needs(plan, k as int) =~= block_needs(plan, k + 1));
                    }
                },
            }
            k += 1;
        }
        // texture pass
        let ghost blocks = block_needs(plan, plan.len() as int);
        proof {
            assert(blocks.union(texture_needs(plan, 0)) =~= blocks);
        }
        let mut k: usize = 0;
        while k < bundle.plan.len()
            invariant
                k <= plan.len(),
                plan == bundle.plan@,
                origin.wf(),
                origin == old(self)@.mail,
                blocks == block_needs(plan, plan.len() as int),
                plan_known(origin.tables, plan),
                forall|kind: Kind| #[trigger] self@.mail.tables.len(kind) == origin.tables.len(kind),
                self@ == (Model {
                    mail: origin.demanded(blocks.union(texture_needs(plan, k as int))),
                    ..old(self)@
                }),
                ready == self@.mail.tables.ready(blocks.union(texture_needs(plan, k as int))),
                !ready ==> self@.mail.channel.len() == 0,
            decreases plan.len() - k,
        {
            let ghost held = blocks.union(texture_needs(plan, k as int));
            match bundle.plan[k] {
                Binding::Texture { var, location, texture, sampler } => {
                    proof {
                        assert(self@.mail.tables.len(Kind::Texture) == origin.tables.len(
                            Kind::Texture,
                        ));
                        assert(self@.mail.tables.len(Kind::Sampler) == origin.tables.len(
                            Kind::Sampler,
                        ));
                    }
                    ready = self.dispatcher.demand_also(
                        Kind::Texture,
                        texture,
                        ready,
                        Ghost(origin),
                        Ghost(held),
                    );
                    match sampler {
                        Some(sam) => {
                            proof {
                                assert(held.insert((Kind::Texture, texture as int)).insert(
                                    (Kind::Sampler, sam as int),
                                ) =~= blocks.union(texture_needs(plan, k + 1)));
                            }
                            ready = self.dispatcher.demand_also(
                                Kind::Sampler,
                                sam,
                                ready,
                                Ghost(origin),
                                Ghost(held.insert((Kind::Texture, texture as int))),
                            );
                        },
                        None => {
                            proof {
                                assert(held.insert((Kind::Texture, texture as int)) =~= blocks.union(
                                    texture_needs(plan, k + 1),
                                ));
                            }
                        },
                    }
                },
                _ => {
                    proof {
                        assert(texture_needs(plan, k as int) =~= texture_needs(plan, k + 1));
                    }
                },
            }
            k += 1;
        }
        proof {
            lemma_demanded(origin, bundle_needs(*bundle));
        }
        ready
    }
}

/// Everything a draw call waits for before it sends anything: the buffers
/// of the mesh and of the slice, what the bundle refers to, the program,
/// the shared vertex layout object and, unless the frame is the default
/// target, the shared frame buffer object.
pub open spec fn draw_needs(mesh: Mesh, slice: Slice, frame: Frame, bundle: ShaderBundle) -> Needs {
    mesh_needs(mesh, mesh.attributes@.len() as int).union(slice_needs(slice)).union(
        bundle_needs(bundle),
    ).insert((Kind::Program, bundle.program as int)).insert((Kind::ArrayBuffer, 0int)).union(
        frame_needs(frame),
    )
}

/// Every token a draw call refers to was handed out.
pub open spec fn draw_known(tables: Tables, mesh: Mesh, slice: Slice, bundle: ShaderBundle) -> bool {
    &&& mesh_known(tables, mesh)
    &&& slice_known(tables, slice)
    &&& plan_known(tables, bundle.plan@)
    &&& tables.has(Kind::Program, bundle.program as int)
}

/// The index buffer of the slice, if it has one, is loaded.
pub open spec fn slice_loaded(tables: Tables, slice: Slice) -> bool {
    slice matches Slice::IndexSlice(buffer, _, _) ==> tables.has(Kind::Buffer, buffer as int)
        && tables.buffers[buffer as int] is Loaded
}

/// The objects a draw call cannot do without are loaded: the buffers of the
/// mesh and of the slice, the samplers of the bundle, the shared vertex
/// layout object and, unless the frame is the default target, the shared
/// frame buffer object.
pub open spec fn draw_loaded(
    tables: Tables,
    mesh: Mesh,
    slice: Slice,
    frame: Frame,
    bundle: ShaderBundle,
) -> bool {
    &&& mesh_loaded(tables, mesh)
    &&& slice_loaded(tables, slice)
    &&& plan_bindable(tables, bundle.plan@)
    &&& tables.has(Kind::ArrayBuffer, 0) && tables.array_buffers[0] is Loaded
    &&& !frame.default_target() ==> tables.has(Kind::FrameBuffer, 0)
        && tables.frame_buffers[0] is Loaded
}

/// The requests that set the pipeline state of a draw call: rasterizer
/// state, then depth and stencil state with the cull mode that the
/// rasterizer state implies, then blend state.
pub open spec fn state_requests(state: DrawState) -> Seq<Request> {
    seq![
        Request::Cast(CastRequest::SetPrimitiveState(state.primitive)),
        Request::Cast(
            CastRequest::SetDepthStencilState(
                state.depth,
                state.stencil,
                state.primitive.cull_mode(),
            ),
        ),
        Request::Cast(CastRequest::SetBlendState(state.blend)),
    ]
}

/// The requests that draw a slice: the range itself for a vertex slice,
/// and the index buffer followed by the range for an indexed slice.
pub open spec fn slice_requests(tables: Tables, slice: Slice) -> Seq<Request> {
    match slice {
        Slice::VertexSlice(start, end) => seq![Request::Cast(CastRequest::Draw(start, end))],
        Slice::IndexSlice(buffer, start, end) => seq![
            Request::Cast(CastRequest::BindIndex(tables.buffers[buffer as int]->Loaded_0)),
            Request::Cast(CastRequest::DrawIndexed(start, end)),
        ],
    }
}

/// The requests a draw call starts with: the pipeline state, the shared
/// vertex layout object and the frame.
pub open spec fn draw_head(
    tables: Tables,
    previous: Frame,
    default_frame_buffer: FrameBuffer,
    frame: Frame,
    state: DrawState,
) -> Seq<Request> {
    state_requests(state).push(
        Request::Cast(CastRequest::BindArrayBuffer(tables.array_buffers[0]->Loaded_0)),
    ) + target_requests(tables, previous, default_frame_buffer, frame)
}

/// What a draw call sends and returns after its start: it binds the bundle,
/// binds the mesh and draws the slice. A program that was refused, a bundle
/// that does not bind and a mesh that does not bind each end the call with
/// their error, after the requests that were sent up to there.
pub open spec fn draw_tail(tables: Tables, mesh: Mesh, slice: Slice, bundle: ShaderBundle) -> (
    Seq<Request>,
    Result<(), DrawError>,
) {
    match tables.programs[bundle.program as int] {
        Future::Loaded(meta) => {
            let bound = bind_plan(tables, meta.name, bundle.plan@);
            let with_bundle = seq![Request::Cast(CastRequest::BindProgram(meta.name))]
                + bound.requests;
            match bundle_verdict(bound) {
                Err(error) => (with_bundle, Err(DrawError::ErrorBundle(error))),
                Ok(_) => {
                    let attributes = mesh_binding(tables, mesh, meta);
                    match attributes.1 {
                        Err(error) => (with_bundle + attributes.0, Err(DrawError::ErrorMesh(error))),
                        Ok(_) => (
                            with_bundle + attributes.0 + slice_requests(tables, slice),
                            Ok(()),
                        ),
                    }
                },
            }
        },
        _ => (Seq::empty(), Err(DrawError::ErrorProgram)),
    }
}

/// What a draw call sends and returns once everything it refers to is
/// answered and loaded: its start, and then what follows up to the first
/// failure.
pub open spec fn drawing(
    tables: Tables,
    previous: Frame,
    default_frame_buffer: FrameBuffer,
    mesh: Mesh,
    slice: Slice,
    frame: Frame,
    bundle: ShaderBundle,
    state: DrawState,
) -> (Seq<Request>, Result<(), DrawError>) {
    let tail = draw_tail(tables, mesh, slice, bundle);
    (draw_head(tables, previous, default_frame_buffer, frame, state) + tail.0, tail.1)
}

/// Whether every attribute of the mesh lives in a buffer that was handed
/// out and is loaded.
pub fn is_mesh_loaded(resource: &Cache, mesh: &Mesh) -> (b: bool)
    ensures
        b == mesh_loaded(resource@, *mesh),
{
    let mut i: usize = 0;
    while i < mesh.attributes.len()
        invariant
            i <= mesh.attributes@.len(),
            forall|j: int|
                0 <= j < i ==> {
                    &&& resource@.has(Kind::Buffer, (#[trigger] mesh.attributes@[j]).buffer as int)
                    &&& resource@.buffers[mesh.attributes@[j].buffer as int] is Loaded
                },
        decreases mesh.attributes@.len() - i,
    {
        let buffer = mesh.attributes[i].buffer;
        if buffer >= resource.buffers.len() {
            return false;
        }
        match resource.buffers[buffer] {
            Future::Loaded(_) => {},
            _ => {
                return false;
            },
        }
        i += 1;
    }
    true
}

/// Whether every buffer, texture and sampler named by the plan was handed
/// out, and the samplers are loaded.
pub fn is_plan_bindable(resource: &Cache, plan: &Vec<Binding>) -> (b: bool)
    ensures
        b == plan_bindable(resource@, plan@),
{
    let mut i: usize = 0;
    while i < plan.len()
        invariant
            i <= plan@.len(),
            plan_bindable(resource@, plan@.take(i as int)),
        decreases plan@.len() - i,
    {
        let fine = match plan[i] {
            Binding::Uniform { .. } => true,
            Binding::Block { buffer, .. } => buffer < resource.buffers.len(),
            Binding::Texture { texture, sampler, .. } => texture < resource.textures.len()
                && match sampler {
                Some(token) => token < resource.samplers.len() && match resource.samplers[token] {
                    Future::Loaded(_) => true,
                    _ => false,
                },
                None => true,
            },
        };
        if !fine {
            return false;
        }
        proof {
            assert forall|j: int| 0 <= j < i + 1 implies match #[trigger] plan@.take(i + 1)[j] {
                Binding::Uniform { .. } => true,
                Binding::Block { buffer, .. } => resource@.has(Kind::Buffer, buffer as int),
                Binding::Texture { texture, sampler, .. } => {
                    &&& resource@.has(Kind::Texture, texture as int)
                    &&& sampler matches Some(token) ==> resource@.has(Kind::Sampler, token as int)
                        && resource@.samplers[token as int] is Loaded
                },
            } by {
                if j < i {
                    assert(plan@.take(i + 1)[j] == plan@.take(i as int)[j]);
                }
            }
        }
        i += 1;
    }
    proof {
        assert(plan@.take(i as int) =~= plan@);
    }
    true
}

impl Renderer {
    /// Clears `frame` as `data` says: binds the frame, which may have to
    /// wait for the shared frame buffer object, and sends the clear.
    pub fn clear(&mut self, data: ClearData, frame: Frame) -> (r: Wait<()>)
        requires
            old(self)@.wf(),
        ensures
            final(self)@.wf(),
            final(self)@.mail == old(self)@.mail.demanded(frame_needs(frame)),
            final(self)@.default_frame_buffer == old(self)@.default_frame_buffer,
            match r {
                Wait::Blocked => {
                    &&& !frame.default_target()
                    &&& final(self)@.mail.tables.frame_buffers[0] is Pending
                    &&& final(self)@.mail.channel.len() == 0
                    &&& final(self)@.sent == old(self)@.sent
                    &&& final(self)@.frame == old(self)@.frame
                },
                Wait::Refused => {
                    &&& !frame.default_target()
                    &&& final(self)@.mail.tables.frame_buffers[0] is Failed
                    &&& final(self)@.sent == old(self)@.sent
                    &&& final(self)@.frame == old(self)@.frame
                },
                Wait::Done(_) => {
                    &&& frame.default_target() || final(self)@.mail.tables.frame_buffers[0] is Loaded
                    &&& final(self)@.sent == (old(self)@.sent + target_requests(
                        final(self)@.mail.tables,
                        old(self)@.frame,
                        old(self)@.default_frame_buffer,
                        frame,
                    )).push(Request::Cast(CastRequest::Clear(data)))
                    &&& final(self)@.frame == if frame.default_target() {
                        old(self)@.frame
                    } else {
                        frame
                    }
                },
            },
    {
        match self.bind_frame(&frame) {
            Wait::Blocked => Wait::Blocked,
            Wait::Refused => Wait::Refused,
            Wait::Done(_) => {
                self.device_tx.push(Request::Cast(CastRequest::Clear(data)));
                proof {
                    assert(old(self)@.sent.push(
                        Request::Cast(
                            CastRequest::BindFrameBuffer(old(self)@.default_frame_buffer),
                        ),
                    ) =~= old(self)@.sent + seq![
                        Request::Cast(
                            CastRequest::BindFrameBuffer(old(self)@.default_frame_buffer),
                        ),
                    ]);
                }
                Wait::Done(())
            },
        }
    }

    /// Starts a draw call: sends the pipeline state and binds the shared
    /// vertex layout object and the frame, all of which are loaded.
    pub fn begin_draw(&mut self, frame: &Frame, state: &DrawState)
        requires
            old(self)@.wf(),
            old(self)@.mail.tables.array_buffers[0] is Loaded,
            !frame.default_target() ==> old(self)@.mail.tables.frame_buffers[0] is Loaded,
        ensures
            final(self)@.wf(),
            final(self)@.mail == old(self)@.mail,
            final(self)@.default_frame_buffer == old(self)@.default_frame_buffer,
            final(self)@.frame == if frame.default_target() {
                old(self)@.frame
            } else {
                *frame
            },
            final(self)@.sent == old(self)@.sent + draw_head(
                old(self)@.mail.tables,
                old(self)@.frame,
                old(self)@.default_frame_buffer,
                *frame,
                *state,
            ),
    {
        let ghost tables = self@.mail.tables;
        // bind state
        self.cast(CastRequest::SetPrimitiveState(state.primitive));
        self.cast(
            CastRequest::SetDepthStencilState(
                state.depth,
                state.stencil,
                state.primitive.get_cull_mode(),
            ),
        );
        self.cast(CastRequest::SetBlendState(state.blend));
        // bind array buffer
        proof {
            assert(tables.ready(set![(Kind::ArrayBuffer, 0int)]));
            lemma_demanded_ready(self@.mail, set![(Kind::ArrayBuffer, 0int)]);
        }
        let vao = match self.dispatcher.get_common_array_buffer() {
            Future::Loaded(vao) => vao,
            _ => vstd::pervasive::unreached(),
        };
        self.cast(CastRequest::BindArrayBuffer(vao));
        // bind output frame
        proof {
            assert(tables.ready(frame_needs(*frame)));
            lemma_demanded_ready(self@.mail, frame_needs(*frame));
        }
        let ghost before = self@;
        match self.bind_frame(frame) {
            Wait::Done(_) => (),
            _ => vstd::pervasive::unreached(),
        }
        proof {
            let target = target_requests(
                tables,
                old(self)@.frame,
                old(self)@.default_frame_buffer,
                *frame,
            );
            assert(self@.sent =~= before.sent + target);
            assert(before.sent =~= old(self)@.sent + state_requests(*state).push(
                Request::Cast(CastRequest::BindArrayBuffer(vao)),
            ));
            assert(self@.sent =~= old(self)@.sent + draw_head(
                tables,
                old(self)@.frame,
                old(self)@.default_frame_buffer,
                *frame,
                *state,
            ));
        }
    }

    /// Draws a slice whose index buffer, if it has one, is loaded.
    pub fn draw_slice(device_tx: &mut Vec<Request>, resource: &Cache, slice: Slice)
        requires
            slice_loaded(resource@, slice),
        ensures
            final(device_tx)@ == old(device_tx)@ + slice_requests(resource@, slice),
    {
        match slice {
            Slice::VertexSlice(start, end) => {
                device_tx.push(Request::Cast(CastRequest::Draw(start, end)));
            },
            Slice::IndexSlice(handle, start, end) => {
                let buf = *resource.buffers[handle].unwrap();
                device_tx.push(Request::Cast(CastRequest::BindIndex(buf)));
                device_tx.push(Request::Cast(CastRequest::DrawIndexed(start, end)));
            },
        }
        proof {
            assert(device_tx@ =~= old(device_tx)@ + slice_requests(resource@, slice));
        }
    }

    /// Ends a draw call whose program is answered: binds the bundle, binds
    /// the mesh and draws the slice, up to the first of these that fails.
    pub fn finish_draw(&mut self, mesh: &Mesh, slice: Slice, bundle: &ShaderBundle) -> (r: Result<
        (),
        DrawError,
    >)
        requires
            old(self)@.wf(),
            bundle.wf(),
            old(self)@.mail.tables.resolved(Kind::Program, bundle.program as int),
            mesh_loaded(old(self)@.mail.tables, *mesh),
            slice_loaded(old(self)@.mail.tables, slice),
            plan_bindable(old(self)@.mail.tables, bundle.plan@),
        ensures
            final(self)@ == old(self)@.send(
                draw_tail(old(self)@.mail.tables, *mesh, slice, *bundle).0,
            ),
            r == draw_tail(old(self)@.mail.tables, *mesh, slice, *bundle).1,
    {
        let ghost tables = self@.mail.tables;
        // bind shaders
        let program = match &self.dispatcher.resource.programs[bundle.program] {
            Future::Pending => vstd::pervasive::unreached(),
            Future::Loaded(p) => p,
            Future::Failed(_) => {
                proof {
                    assert(self@.sent =~= old(self)@.sent + Seq::<Request>::empty());
                }
                return Err(DrawError::ErrorProgram);
            },
        };
        let ghost bound = bind_plan(tables, program.name, bundle.plan@);
        let ghost with_bundle = seq![Request::Cast(CastRequest::BindProgram(program.name))]
            + bound.requests;
        let bundled = Renderer::bind_shader_bundle(
            &mut self.device_tx,
            &self.dispatcher.resource,
            program,
            bundle,
        );
        proof {
            assert(self.device_tx@ =~= old(self)@.sent + with_bundle);
        }
        match bundled {
            Ok(_) => (),
            Err(e) => {
                return Err(DrawError::ErrorBundle(e));
            },
        }
        // bind vertex attributes
        let ghost attributes = mesh_binding(tables, *mesh, *program);
        let meshed = Renderer::bind_mesh(
            &mut self.device_tx,
            &self.dispatcher.resource,
            mesh,
            program,
        );
        proof {
            assert(self.device_tx@ =~= old(self)@.sent + (with_bundle + attributes.0));
        }
        match meshed {
            Ok(_) => (),
            Err(e) => {
                return Err(DrawError::ErrorMesh(e));
            },
        }
        // draw
        Renderer::draw_slice(&mut self.device_tx, &self.dispatcher.resource, slice);
        proof {
            assert(self.device_tx@ =~= old(self)@.sent + (with_bundle + attributes.0
                + slice_requests(tables, slice)));
        }
        Ok(())
    }

    /// Carries out a draw call for which everything is answered and loaded:
    /// sends the pipeline state, binds the shared vertex layout object, the
    /// frame, the bundle and the mesh, and draws the slice.
    pub fn draw_resolved(
        &mut self,
        mesh: &Mesh,
        slice: Slice,
        frame: Frame,
        bundle: &ShaderBundle,
        state: DrawState,
    ) -> (r: Result<(), DrawError>)
        requires
            old(self)@.wf(),
            bundle.wf(),
            old(self)@.mail.tables.resolved(Kind::Program, bundle.program as int),
            draw_loaded(old(self)@.mail.tables, *mesh, slice, frame, *bundle),
        ensures
            final(self)@.wf(),
            final(self)@.mail == old(self)@.mail,
            final(self)@.default_frame_buffer == old(self)@.default_frame_buffer,
            final(self)@.frame == if frame.default_target() {
                old(self)@.frame
            } else {
                frame
            },
            final(self)@.sent == old(self)@.sent + drawing(
                old(self)@.mail.tables,
                old(self)@.frame,
                old(self)@.default_frame_buffer,
                *mesh,
                slice,
                frame,
                *bundle,
                state,
            ).0,
            r == drawing(
                old(self)@.mail.tables,
                old(self)@.frame,
                old(self)@.default_frame_buffer,
                *mesh,
                slice,
                frame,
                *bundle,
                state,
            ).1,
    {
        self.begin_draw(&frame, &state);
        let ghost middle = self@;
        let r = self.finish_draw(mesh, slice, bundle);
        proof {
            let tables = old(self)@.mail.tables;
            let head = draw_head(
                tables,
                old(self)@.frame,
                old(self)@.default_frame_buffer,
                frame,
                state,
            );
            let tail = draw_tail(tables, *mesh, slice, *bundle);
            assert(self@.sent =~= old(self)@.sent + (head + tail.0));
        }
        r
    }
}

impl Renderer {
    /// Whether every token that `mesh`, `slice` and `bundle` refer to was
    /// handed out by this renderer, so that they can be drawn.
    pub fn can_draw(&self, mesh: &Mesh, slice: &Slice, bundle: &ShaderBundle) -> (b: bool)
        ensures
            b == draw_known(self@.mail.tables, *mesh, *slice, *bundle),
    {
        let resource = &self.dispatcher.resource;
        let mut i: usize = 0;
        while i < mesh.attributes.len()
            invariant
                i <= mesh.attributes@.len(),
                resource@ == self@.mail.tables,
                forall|j: int|
                    0 <= j < i ==> resource@.has(
                        Kind::Buffer,
                        (#[trigger] mesh.attributes@[j]).buffer as int,
                    ),
            decreases mesh.attributes@.len() - i,
        {
            if mesh.attributes[i].buffer >= resource.buffers.len() {
                proof {
                    assert(!resource@.has(Kind::Buffer, mesh.attributes@[i as int].buffer as int));
                }
                return false;
            }
            i += 1;
        }
        match *slice {
            Slice::IndexSlice(buffer, _, _) => {
                if buffer >= resource.buffers.len() {
                    return false;
                }
            },
            _ => {},
        }
        let mut k: usize = 0;
        while k < bundle.plan.len()
            invariant
                k <= bundle.plan@.len(),
                resource@ == self@.mail.tables,
                mesh_known(resource@, *mesh),
                slice_known(resource@, *slice),
                plan_known(resource@, bundle.plan@.take(k as int)),
            decreases bundle.plan@.len() - k,
        {
            let fine = match bundle.plan[k] {
                Binding::Uniform { .. } => true,
                Binding::Block { buffer, .. } => buffer < resource.buffers.len(),
                Binding::Texture { texture, sampler, .. } => texture < resource.textures.len()
                    && match sampler {
                    Some(token) => token < resource.samplers.len(),
                    None => true,
                },
            };
            if !fine {
                proof {
                    assert(!plan_known(resource@, bundle.plan@));
                }
                return false;
            }
            proof {
                assert forall|j: int| 0 <= j < k + 1 implies match #[trigger] bundle.plan@.take(
                    k + 1,
                )[j] {
                    Binding::Uniform { .. } => true,
                    Binding::Block { buffer, .. } => resource@.has(Kind::Buffer, buffer as int),
                    Binding::Texture { texture, sampler, .. } => {
                        &&& resource@.has(Kind::Texture, texture as int)
                        &&& sampler matches Some(token) ==> resource@.has(
                            Kind::Sampler,
                            token as int,
                        )
                    },
                } by {
                    if j < k {
                        assert(bundle.plan@.take(k + 1)[j] == bundle.plan@.take(k as int)[j]);
                    }
                }
            }
            k += 1;
        }
        proof {
            assert(bundle.plan@.take(k as int) =~= bundle.plan@);
        }
        bundle.program < resource.programs.len()
    }

    /// Whether the objects that a draw call of `mesh`, `slice` and `bundle`
    /// into `frame` cannot do without are loaded.
    pub fn is_loaded(&self, mesh: &Mesh, slice: &Slice, frame: &Frame, bundle: &ShaderBundle) -> (b:
        bool)
        ensures
            b == draw_loaded(self@.mail.tables, *mesh, *slice, *frame, *bundle),
    {
        let resource = &self.dispatcher.resource;
        is_mesh_loaded(resource, mesh) && match *slice {
            Slice::IndexSlice(buffer, _, _) => buffer < resource.buffers.len()
                && match resource.buffers[buffer] {
                Future::Loaded(_) => true,
                _ => false,
            },
            _ => true,
        } && is_plan_bindable(resource, &bundle.plan) && resource.array_buffers.len() > 0
            && match resource.array_buffers[0] {
            Future::Loaded(_) => true,
            _ => false,
        } && (frame.is_default() || (resource.frame_buffers.len() > 0
            && match resource.frame_buffers[0] {
            Future::Loaded(_) => true,
            _ => false,
        }))
    }

    /// Waits for everything a draw call refers to, in this order: the
    /// buffers of the mesh and of the slice, what the bundle refers to, the
    /// program, the shared vertex layout object and, unless the frame is
    /// the default target, the shared frame buffer object. Sends nothing.
    /// Returns whether all of them are answered.
    pub fn prebind(&mut self, mesh: &Mesh, slice: &Slice, frame: &Frame, bundle: &ShaderBundle) -> (ready:
        bool)
        requires
            old(self)@.wf(),
            draw_known(old(self)@.mail.tables, *mesh, *slice, *bundle),
        ensures
            final(self)@.wf(),
            final(self)@ == (Model {
                mail: old(self)@.mail.demanded(draw_needs(*mesh, *slice, *frame, *bundle)),
                ..old(self)@
            }),
            forall|kind: Kind| #[trigger]
                final(self)@.mail.tables.len(kind) == old(self)@.mail.tables.len(kind),
            ready == final(self)@.mail.tables.ready(draw_needs(*mesh, *slice, *frame, *bundle)),
            !ready ==> final(self)@.mail.channel.len() == 0,
    {
        let ghost origin = self@.mail;
        let ghost first = mesh_needs(*mesh, mesh.attributes@.len() as int).union(
            slice_needs(*slice),
        );
        let ghost second = bundle_needs(*bundle);
        proof {
            lemma_demanded(origin, first);
        }
        let mesh_ready = self.prebind_mesh(mesh, slice);
        proof {
            lemma_demanded(self@.mail, second);
            lemma_two_waits(origin, first, second);
            lemma_demanded(origin, first.union(second));
        }
        let bundle_ready = self.prebind_bundle(bundle);
        let ghost held = first.union(second);
        let ready = self.dispatcher.demand_also(
            Kind::Program,
            bundle.get_program(),
            mesh_ready && bundle_ready,
            Ghost(origin),
            Ghost(held),
        );
        let ghost held = held.insert((Kind::Program, bundle.program as int));
        let ready = self.dispatcher.demand_also(
            Kind::ArrayBuffer,
            0,
            ready,
            Ghost(origin),
            Ghost(held),
        );
        let ghost held = held.insert((Kind::ArrayBuffer, 0int));
        if frame.is_default() {
            proof {
                assert(held.union(frame_needs(*frame)) =~= held);
            }
            ready
        } else {
            proof {
                assert(held.union(frame_needs(*frame)) =~= held.insert((Kind::FrameBuffer, 0int)));
            }
            self.dispatcher.demand_also(Kind::FrameBuffer, 0, ready, Ghost(origin), Ghost(held))
        }
    }

    /// Draws `slice` of `mesh` into `frame`, using a `bundle` of shader
    /// program and parameters, and a given draw state.
    ///
    /// The call first waits for everything it refers to and sends nothing
    /// before all of it is answered. If the replies run out before that,
    /// the call is blocked. If the device refused an object that the call
    /// cannot do without, the call is refused. Otherwise the requests of
    /// the draw call are sent, up to the first step that fails; what was
    /// sent before a failure stays sent.
    pub fn draw(
        &mut self,
        mesh: &Mesh,
        slice: Slice,
        frame: Frame,
        bundle: &ShaderBundle,
        state: DrawState,
    ) -> (r: Wait<Result<(), DrawError>>)
        requires
            old(self)@.wf(),
            bundle.wf(),
            draw_known(old(self)@.mail.tables, *mesh, slice, *bundle),
        ensures
            final(self)@.wf(),
            final(self)@.mail == old(self)@.mail.demanded(draw_needs(*mesh, slice, frame, *bundle)),
            final(self)@.default_frame_buffer == old(self)@.default_frame_buffer,
            if !final(self)@.mail.tables.ready(draw_needs(*mesh, slice, frame, *bundle)) {
                &&& r is Blocked
                &&& final(self)@.mail.channel.len() == 0
                &&& final(self)@.sent == old(self)@.sent
                &&& final(self)@.frame == old(self)@.frame
            } else if !draw_loaded(final(self)@.mail.tables, *mesh, slice, frame, *bundle) {
                &&& r is Refused
                &&& final(self)@.sent == old(self)@.sent
                &&& final(self)@.frame == old(self)@.frame
            } else {
                &&& r == Wait::Done(
                    drawing(
                        final(self)@.mail.tables,
                        old(self)@.frame,
                        old(self)@.default_frame_buffer,
                        *mesh,
                        slice,
                        frame,
                        *bundle,
                        state,
                    ).1,
                )
                &&& final(self)@.sent == old(self)@.sent + drawing(
                    final(self)@.mail.tables,
                    old(self)@.frame,
                    old(self)@.default_frame_buffer,
                    *mesh,
                    slice,
                    frame,
                    *bundle,
                    state,
                ).0
                &&& final(self)@.frame == if frame.default_target() {
                    old(self)@.frame
                } else {
                    frame
                }
            },
    {
        // demand resources
        if !self.prebind(mesh, &slice, &frame, bundle) {
            return Wait::Blocked;
        }
        let loaded = self.is_loaded(mesh, &slice, &frame, bundle);
        if !loaded {
            return Wait::Refused;
        }
        proof {
            assert(draw_needs(*mesh, slice, frame, *bundle).contains(
                (Kind::Program, bundle.program as int),
            ));
        }
        Wait::Done(self.draw_resolved(mesh, slice, frame, bundle, state))
    }
}

} // verus!
