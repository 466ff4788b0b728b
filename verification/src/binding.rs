//! Binding of frames, shader bundles and meshes: the requests that tell the
//! device what the next draw call works on.

use vstd::prelude::*;
use crate::{BundleError, MeshError, SamplerHandle};
use crate::device::{CastRequest, FrameBuffer, Program, Request, Sampler};
use crate::device::shade::{ProgramMeta, UniformValue};
use crate::device::target::{Plane, Target};
use crate::dispatcher::Needs;
use crate::mesh::Mesh;
use crate::renderer::{Renderer, Wait};
use crate::resource::{Cache, Future, Kind, Tables};
use crate::shade::{
    first_true, lemma_first_true, lemma_first_true_found, position, Binding, ShaderBundle,
    VarBlock, VarTexture,
};
use crate::target::{Frame, MAX_COLOR_TARGETS};

verus! {

/// The request that attaches `plane` to `target`, if the attachment differs
/// from the one bound before.
pub open spec fn plane_requests(target: Target, previous: Plane, plane: Plane) -> Seq<Request> {
    if previous != plane {
        seq![Request::Cast(CastRequest::BindTarget(target, plane))]
    } else {
        Seq::empty()
    }
}

/// The requests that update the first `upto` color attachments, in slot
/// order: one for every slot whose attachment changes.
pub open spec fn color_requests(previous: Frame, frame: Frame, upto: int) -> Seq<Request>
    decreases upto,
{
    if upto <= 0 {
        Seq::empty()
    } else {
        color_requests(previous, frame, upto - 1) + plane_requests(
            Target::TargetColor((upto - 1) as u8),
            previous.colors[upto - 1],
            frame.colors[upto - 1],
        )
    }
}

/// The requests that bind a frame with attachments on the shared frame
/// buffer object `fbo`, when `previous` was bound before: the object itself,
/// then every color attachment that changes, then depth and stencil if they
/// change.
pub open spec fn frame_requests(previous: Frame, frame: Frame, fbo: FrameBuffer) -> Seq<Request> {
    seq![Request::Cast(CastRequest::BindFrameBuffer(fbo))] + color_requests(previous, frame, 4)
        + plane_requests(Target::TargetDepth, previous.depth, frame.depth) + plane_requests(
        Target::TargetStencil,
        previous.stencil,
        frame.stencil,
    )
}

/// A frame that differs from the one bound before in a single color slot
/// is bound with a single attachment request, for that slot; a frame equal
/// to the one bound before is bound without any.
pub proof fn law_frame_diff(previous: Frame, frame: Frame, fbo: FrameBuffer, slot: int)
    requires
        0 <= slot < 4,
        forall|i: int| 0 <= i < 4 && i != slot ==> previous.colors[i] == frame.colors[i],
        previous.depth == frame.depth,
        previous.stencil == frame.stencil,
    ensures
        frame_requests(previous, frame, fbo) == if previous.colors[slot] != frame.colors[slot] {
            seq![
                Request::Cast(CastRequest::BindFrameBuffer(fbo)),
                Request::Cast(
                    CastRequest::BindTarget(Target::TargetColor(slot as u8), frame.colors[slot]),
                ),
            ]
        } else {
            seq![Request::Cast(CastRequest::BindFrameBuffer(fbo))]
        },
{
    reveal_with_fuel(color_requests, 5);
    assert(previous.colors[0] == frame.colors[0] || slot == 0);
    assert(previous.colors[1] == frame.colors[1] || slot == 1);
    assert(previous.colors[2] == frame.colors[2] || slot == 2);
    assert(previous.colors[3] == frame.colors[3] || slot == 3);
    assert(frame_requests(previous, frame, fbo) =~= if previous.colors[slot]
        != frame.colors[slot] {
        seq![
            Request::Cast(CastRequest::BindFrameBuffer(fbo)),
            Request::Cast(
                CastRequest::BindTarget(Target::TargetColor(slot as u8), frame.colors[slot]),
            ),
        ]
    } else {
        seq![Request::Cast(CastRequest::BindFrameBuffer(fbo))]
    });
}

/// The requests that bind `frame` when `previous` was bound before: for the
/// default target its fixed handle alone, whatever was bound before, and
/// for any other frame the shared frame buffer object and the attachments
/// that change.
pub open spec fn target_requests(
    tables: Tables,
    previous: Frame,
    default_frame_buffer: FrameBuffer,
    frame: Frame,
) -> Seq<Request> {
    if frame.default_target() {
        seq![Request::Cast(CastRequest::BindFrameBuffer(default_frame_buffer))]
    } else {
        frame_requests(previous, frame, tables.frame_buffers[0]->Loaded_0)
    }
}

/// What binding a frame waits for: the shared frame buffer object, unless
/// the frame is the default target.
pub open spec fn frame_needs(frame: Frame) -> Needs {
    if frame.default_target() {
        Set::empty()
    } else {
        set![(Kind::FrameBuffer, 0int)]
    }
}

impl Renderer {
    /// Binds `frame` as the target of the following draw calls.
    ///
    /// The default target is bound by its fixed handle, whatever was bound
    /// before. Any other frame is bound on the shared frame buffer object,
    /// which is waited for, and only the attachments that differ from the
    /// frame bound last are sent; the frame is then remembered.
    pub fn bind_frame(&mut self, frame: &Frame) -> (r: Wait<()>)
        requires
            old(self)@.wf(),
        ensures
            final(self)@.wf(),
            final(self)@.mail == old(self)@.mail.demanded(frame_needs(*frame)),
            final(self)@.default_frame_buffer == old(self)@.default_frame_buffer,
            match r {
                Wait::Blocked => {
                    &&& !frame.default_target()
                    &&& final(self)@.mail.tables.frame_buffers[0] is Pending
                    &&& final(self)@.mail.channel.len() == 0
                    &&& final(self)@.sent == old(self)@.sent
                    &&& final(self)@.frame == old(self)@.frame
                },
                Wait::Refused => {
                    &&& !frame.default_target()
                    &&& final(self)@.mail.tables.frame_buffers[0] is Failed
                    &&& final(self)@.sent == old(self)@.sent
                    &&& final(self)@.frame == old(self)@.frame
                },
                Wait::Done(_) => if frame.default_target() {
                    &&& final(self)@.sent == old(self)@.sent.push(
                        Request::Cast(
                            CastRequest::BindFrameBuffer(old(self)@.default_frame_buffer),
                        ),
                    )
                    &&& final(self)@.frame == old(self)@.frame
                } else {
                    &&& final(self)@.mail.tables.frame_buffers[0] matches Future::Loaded(fbo)
                    &&& final(self)@.sent == old(self)@.sent + frame_requests(
                        old(self)@.frame,
                        *frame,
                        fbo,
                    )
                    &&& final(self)@.frame == *frame
                },
            },
    {
        if frame.is_default() {
            // binding the default frame buffer object, not touching the shared one
            self.cast(CastRequest::BindFrameBuffer(self.default_frame_buffer));
            proof {
                assert(self@.sent =~= old(self)@.sent.push(
                    Request::Cast(CastRequest::BindFrameBuffer(old(self)@.default_frame_buffer)),
                ));
            }
            Wait::Done(())
        } else {
            let fbo = match self.dispatcher.get_common_frame_buffer() {
                Future::Pending => {
                    return Wait::Blocked;
                },
                Future::Failed(_) => {
                    return Wait::Refused;
                },
                Future::Loaded(fbo) => fbo,
            };
            let ghost previous = self.state.frame;
            let ghost start = self@;
            self.cast(CastRequest::BindFrameBuffer(fbo));
            let mut i: usize = 0;
            while i < MAX_COLOR_TARGETS
                invariant
                    i <= 4,
                    previous == start.frame,
                    self@ == start.send(
                        seq![Request::Cast(CastRequest::BindFrameBuffer(fbo))] + color_requests(
                            previous,
                            *frame,
                            i as int,
                        ),
                    ),
                decreases 4 - i,
            {
                if !self.state.frame.colors[i].same(&frame.colors[i]) {
                    self.cast(CastRequest::BindTarget(Target::TargetColor(i as u8), frame.colors[i]));
                }
                proof {
                    assert(color_requests(previous, *frame, i + 1) == color_requests(
                        previous,
                        *frame,
                        i as int,
                    ) + plane_requests(
                        Target::TargetColor(i as u8),
                        previous.colors[i as int],
                        frame.colors[i as int],
                    ));
                    assert(self@.sent =~= start.sent + (seq![
                        Request::Cast(CastRequest::BindFrameBuffer(fbo)),
                    ] + color_requests(previous, *frame, i + 1)));
                }
                i += 1;
            }
            if !self.state.frame.depth.same(&frame.depth) {
                self.cast(CastRequest::BindTarget(Target::TargetDepth, frame.depth));
            }
            if !self.state.frame.stencil.same(&frame.stencil) {
                self.cast(CastRequest::BindTarget(Target::TargetStencil, frame.stencil));
            }
            self.state.frame = *frame;
            proof {
                assert(self@.sent =~= old(self)@.sent + frame_requests(previous, *frame, fbo));
            }
            Wait::Done(())
        }
    }
}

/// Names of the attributes of a mesh, in their order.
pub open spec fn attribute_names(mesh: Mesh) -> Seq<Seq<char>> {
    Seq::new(mesh.attributes@.len(), |i: int| mesh.attributes@[i].name@)
}

/// Every attribute of the mesh lives in a buffer that is loaded.
pub open spec fn mesh_loaded(tables: Tables, mesh: Mesh) -> bool {
    forall|i: int|
        0 <= i < mesh.attributes@.len() ==> {
            &&& tables.has(Kind::Buffer, (#[trigger] mesh.attributes@[i]).buffer as int)
            &&& tables.buffers[mesh.attributes@[i].buffer as int] is Loaded
        }
}

/// What binding one input of a program does: the request that binds the
/// first attribute of the mesh that carries the input's name, or the reason
/// why there is none to send.
pub open spec fn attribute_outcome(
    tables: Tables,
    mesh: Mesh,
    input: crate::device::shade::Attribute,
) -> Result<Request, MeshError> {
    match position(attribute_names(mesh), input.name@) {
        None => Err(MeshError::ErrorAttributeMissing),
        Some(i) => {
            let found = mesh.attributes@[i];
            if found.elem_type.compatible(input.base_type) {
                Ok(
                    Request::Cast(
                        CastRequest::BindAttribute(
                            input.location,
                            tables.buffers[found.buffer as int]->Loaded_0,
                            found.elem_count,
                            found.elem_type,
                            found.stride,
                            found.offset,
                        ),
                    ),
                )
            } else {
                Err(MeshError::ErrorAttributeType)
            }
        },
    }
}

/// For each input of a program, whether binding it fails.
pub open spec fn attribute_failures(tables: Tables, mesh: Mesh, meta: ProgramMeta) -> Seq<bool> {
    Seq::new(
        meta.attributes@.len(),
        |i: int| attribute_outcome(tables, mesh, meta.attributes@[i]) is Err,
    )
}

/// The requests that bind the first `upto` inputs of a program.
pub open spec fn attribute_requests(tables: Tables, mesh: Mesh, meta: ProgramMeta, upto: int) -> Seq<
    Request,
> {
    Seq::new(upto as nat, |i: int| attribute_outcome(tables, mesh, meta.attributes@[i])->Ok_0)
}

/// What binding a mesh to a program sends and returns: the inputs of the
/// program are bound in their order up to the first one that fails, whose
/// error is returned.
pub open spec fn mesh_binding(tables: Tables, mesh: Mesh, meta: ProgramMeta) -> (
    Seq<Request>,
    Result<(), MeshError>,
) {
    match first_true(attribute_failures(tables, mesh, meta)) {
        Some(i) => (
            attribute_requests(tables, mesh, meta, i),
            Err(attribute_outcome(tables, mesh, meta.attributes@[i])->Err_0),
        ),
        None => (attribute_requests(tables, mesh, meta, meta.attributes@.len() as int), Ok(())),
    }
}

/// Binding a mesh stops at the first input of the program that the mesh
/// cannot feed: the inputs before it are bound, one request each and in
/// their order, nothing is bound after it, and the error tells whether the
/// mesh has no attribute of the input's name or one of an element type that
/// does not fit.
pub proof fn law_mesh_binding_stops(tables: Tables, mesh: Mesh, meta: ProgramMeta, index: int)
    requires
        0 <= index < meta.attributes@.len(),
        attribute_outcome(tables, mesh, meta.attributes@[index]) is Err,
        forall|j: int|
            0 <= j < index ==> attribute_outcome(tables, mesh, #[trigger] meta.attributes@[j]) is Ok,
    ensures
        mesh_binding(tables, mesh, meta).1 == Err::<(), MeshError>(
            if position(attribute_names(mesh), meta.attributes@[index].name@) is None {
                MeshError::ErrorAttributeMissing
            } else {
                MeshError::ErrorAttributeType
            },
        ),
        mesh_binding(tables, mesh, meta).0.len() == index,
        forall|j: int|
            0 <= j < index ==> #[trigger] mesh_binding(tables, mesh, meta).0[j] == attribute_outcome(
                tables,
                mesh,
                meta.attributes@[j],
            )->Ok_0,
{
    lemma_first_true_found(attribute_failures(tables, mesh, meta), index);
}

/// A mesh that can feed every input of the program is bound whole: one
/// request for each input, in the order of the inputs.
pub proof fn law_mesh_binding_completes(tables: Tables, mesh: Mesh, meta: ProgramMeta)
    requires
        forall|j: int|
            0 <= j < meta.attributes@.len() ==> attribute_outcome(
                tables,
                mesh,
                #[trigger] meta.attributes@[j],
            ) is Ok,
    ensures
        mesh_binding(tables, mesh, meta).1 == Ok::<(), MeshError>(()),
        mesh_binding(tables, mesh, meta).0.len() == meta.attributes@.len(),
{
    lemma_first_true(attribute_failures(tables, mesh, meta));
}

/// Index of the first attribute of `mesh` called `name`.
pub fn find_attribute(mesh: &Mesh, name: &String) -> (r: Option<usize>)
    ensures
        r matches Some(i) ==> position(attribute_names(*mesh), name@) == Some(i as int) && i
            < mesh.attributes@.len(),
        r is None ==> position(attribute_names(*mesh), name@) is None,
{
    let ghost marks = Seq::new(
        attribute_names(*mesh).len(),
        |i: int| attribute_names(*mesh)[i] == name@,
    );
    let mut i: usize = 0;
    while i < mesh.attributes.len()
        invariant
            i <= mesh.attributes@.len(),
            marks == Seq::new(
                attribute_names(*mesh).len(),
                |i: int| attribute_names(*mesh)[i] == name@,
            ),
            forall|j: int| 0 <= j < i ==> !marks[j],
        decreases mesh.attributes@.len() - i,
    {
        if mesh.attributes[i].name == *name {
            proof {
                lemma_first_true_found(marks, i as int);
            }
            return Some(i);
        }
        i += 1;
    }
    proof {
        lemma_first_true(marks);
    }
    None
}

impl Renderer {
    /// Binds the attributes of `mesh` to the inputs that the program `prog`
    /// declares, in the order of the inputs, and stops at the first input
    /// that the mesh cannot feed: one it has no attribute for, or one whose
    /// attribute has an element type that does not fit.
    pub fn bind_mesh(
        device_tx: &mut Vec<Request>,
        resource: &Cache,
        mesh: &Mesh,
        prog: &ProgramMeta,
    ) -> (r: Result<(), MeshError>)
        requires
            mesh_loaded(resource@, *mesh),
        ensures
            final(device_tx)@ == old(device_tx)@ + mesh_binding(resource@, *mesh, *prog).0,
            r == mesh_binding(resource@, *mesh, *prog).1,
    {
        let ghost failures = attribute_failures(resource@, *mesh, *prog);
        let mut k: usize = 0;
        while k < prog.attributes.len()
            invariant
                k <= prog.attributes@.len(),
                mesh_loaded(resource@, *mesh),
                failures == attribute_failures(resource@, *mesh, *prog),
                forall|j: int| 0 <= j < k ==> !failures[j],
                device_tx@ == old(device_tx)@ + attribute_requests(
                    resource@,
                    *mesh,
                    *prog,
                    k as int,
                ),
            decreases prog.attributes@.len() - k,
        {
            let sat = &prog.attributes[k];
            match find_attribute(mesh, &sat.name) {
                Some(i) => {
                    let vat = &mesh.attributes[i];
                    match vat.elem_type.is_compatible(sat.base_type) {
                        Ok(_) => {
                            let buffer = *resource.buffers[vat.buffer].unwrap();
                            device_tx.push(
                                Request::Cast(
                                    CastRequest::BindAttribute(
                                        sat.location,
                                        buffer,
                                        vat.elem_count,
                                        vat.elem_type,
                                        vat.stride,
                                        vat.offset,
                                    ),
                                ),
                            );
                            proof {
                                assert(device_tx@ =~= old(device_tx)@ + attribute_requests(
                                    resource@,
                                    *mesh,
                                    *prog,
                                    k + 1,
                                ));
                            }
                        },
                        Err(_) => {
                            proof {
                                lemma_first_true_found(failures, k as int);
                            }
                            return Err(MeshError::ErrorAttributeType);
                        },
                    }
                },
                None => {
                    proof {
                        lemma_first_true_found(failures, k as int);
                    }
                    return Err(MeshError::ErrorAttributeMissing);
                },
            }
            k += 1;
        }
        proof {
            lemma_first_true(failures);
        }
        Ok(())
    }
}

/// The device name of the sampler a texture is read through, if it has one.
pub open spec fn sampler_name(tables: Tables, sampler: Option<SamplerHandle>) -> Option<Sampler> {
    match sampler {
        Some(token) => Some(tables.samplers[token as int]->Loaded_0),
        None => None,
    }
}

/// Every buffer, texture and sampler named by the plan was handed out, and
/// the samplers are loaded.
pub open spec fn plan_bindable(tables: Tables, plan: Seq<Binding>) -> bool {
    forall|i: int|
        0 <= i < plan.len() ==> match #[trigger] plan[i] {
            Binding::Uniform { .. } => true,
            Binding::Block { buffer, .. } => tables.has(Kind::Buffer, buffer as int),
            Binding::Texture { texture, sampler, .. } => {
                &&& tables.has(Kind::Texture, texture as int)
                &&& sampler matches Some(token) ==> tables.has(Kind::Sampler, token as int)
                    && tables.samplers[token as int] is Loaded
            },
        }
}

/// Progress of binding a plan.
pub struct Binder {
    /// The requests sent so far.
    pub requests: Seq<Request>,
    /// The next free binding point for a uniform buffer.
    pub block_slot: nat,
    /// The next free texture unit.
    pub texture_slot: nat,
    /// The first block met whose buffer is not loaded.
    pub block_fail: Option<VarBlock>,
    /// The first texture met that is not loaded.
    pub texture_fail: Option<VarTexture>,
}

/// Binding one entry of a plan.
///
/// A uniform is sent to its location. A block whose buffer is loaded is
/// sent to the next free binding point. A texture that is loaded is sent to
/// the next free texture unit, after the uniform that points its sampler
/// variable at that unit. A block or texture that is not loaded sends
/// nothing, takes no slot, and is recorded if it is the first of its kind.
pub open spec fn bind_entry(tables: Tables, program: Program, state: Binder, entry: Binding) -> Binder {
    match entry {
        Binding::Uniform { location, value, .. } => Binder {
            requests: state.requests.push(Request::Cast(CastRequest::BindUniform(location, value))),
            ..state
        },
        Binding::Block { var, buffer } => match tables.buffers[buffer as int] {
            Future::Loaded(block) => Binder {
                requests: state.requests.push(
                    Request::Cast(
                        CastRequest::BindUniformBlock(program, state.block_slot as usize, var, block),
                    ),
                ),
                block_slot: state.block_slot + 1,
                ..state
            },
            _ => Binder {
                block_fail: if state.block_fail is None {
                    Some(var)
                } else {
                    state.block_fail
                },
                ..state
            },
        },
        Binding::Texture { var, location, texture, sampler } => match tables.textures[texture as int] {
            Future::Loaded(name) => Binder {
                requests: state.requests.push(
                    Request::Cast(
                        CastRequest::BindUniform(
                            location,
                            UniformValue::ValueI32(state.texture_slot as i32),
                        ),
                    ),
                ).push(
                    Request::Cast(
                        CastRequest::BindTexture(
                            state.texture_slot as usize,
                            name,
                            sampler_name(tables, sampler),
                        ),
                    ),
                ),
                texture_slot: state.texture_slot + 1,
                ..state
            },
            _ => Binder {
                texture_fail: if state.texture_fail is None {
                    Some(var)
                } else {
                    state.texture_fail
                },
                ..state
            },
        },
    }
}

/// Binding the entries of a plan in their order, starting with nothing
/// sent and both slot counters at zero.
pub open spec fn bind_plan(tables: Tables, program: Program, plan: Seq<Binding>) -> Binder
    decreases plan.len(),
{
    if plan.len() == 0 {
        Binder {
            requests: Seq::empty(),
            block_slot: 0,
            texture_slot: 0,
            block_fail: None,
            texture_fail: None,
        }
    } else {
        bind_entry(tables, program, bind_plan(tables, program, plan.drop_last()), plan.last())
    }
}

/// What binding a plan returns: a block that is not loaded is reported
/// before a texture that is not loaded.
pub open spec fn bundle_verdict(state: Binder) -> Result<(), BundleError> {
    match (state.block_fail, state.texture_fail) {
        (Some(var), _) => Err(BundleError::ErrorBundleBlock(var)),
        (None, Some(var)) => Err(BundleError::ErrorBundleTexture(var)),
        (None, None) => Ok(()),
    }
}

/// Whether entry `index` of a plan is a block whose buffer is not loaded.
pub open spec fn block_missing(tables: Tables, plan: Seq<Binding>, index: int) -> bool {
    plan[index] matches Binding::Block { buffer, .. } && !(tables.buffers[buffer as int] is Loaded)
}

/// Whether entry `index` of a plan is a texture that is not loaded.
pub open spec fn texture_missing(tables: Tables, plan: Seq<Binding>, index: int) -> bool {
    plan[index] matches Binding::Texture { texture, .. } && !(tables.textures[texture as int]
        is Loaded)
}

/// Binding a plan counts its slots within the plan's length, and records
/// as failures the first block and the first texture that are not loaded.
pub proof fn lemma_bind_plan(tables: Tables, program: Program, plan: Seq<Binding>)
    ensures
        bind_plan(tables, program, plan).block_slot <= plan.len(),
        bind_plan(tables, program, plan).texture_slot <= plan.len(),
        match first_true(Seq::new(plan.len(), |i: int| block_missing(tables, plan, i))) {
            Some(i) => bind_plan(tables, program, plan).block_fail == Some(plan[i]->Block_var),
            None => bind_plan(tables, program, plan).block_fail is None,
        },
        match first_true(Seq::new(plan.len(), |i: int| texture_missing(tables, plan, i))) {
            Some(i) => bind_plan(tables, program, plan).texture_fail == Some(
                plan[i]->Texture_var,
            ),
            None => bind_plan(tables, program, plan).texture_fail is None,
        },
    decreases plan.len(),
{
    let blocks = Seq::new(plan.len(), |i: int| block_missing(tables, plan, i));
    let textures = Seq::new(plan.len(), |i: int| texture_missing(tables, plan, i));
    lemma_first_true(blocks);
    lemma_first_true(textures);
    if plan.len() > 0 {
        let front = plan.drop_last();
        let front_blocks = Seq::new(front.len(), |i: int| block_missing(tables, front, i));
        let front_textures = Seq::new(front.len(), |i: int| texture_missing(tables, front, i));
        lemma_bind_plan(tables, program, front);
        lemma_first_true(front_blocks);
        lemma_first_true(front_textures);
        assert forall|i: int| 0 <= i < front.len() implies front_blocks[i] == blocks[i]
            && front_textures[i] == textures[i] by {
            assert(front[i] == plan[i]);
        }
        let last = plan.len() - 1;
        match first_true(front_blocks) {
            Some(i) => {
                lemma_first_true_found(blocks, i);
            },
            None => {
                if blocks[last] {
                    lemma_first_true_found(blocks, last);
                } else {
                    assert(forall|i: int| 0 <= i < blocks.len() ==> !blocks[i]);
                }
            },
        }
        match first_true(front_textures) {
            Some(i) => {
                lemma_first_true_found(textures, i);
            },
            None => {
                if textures[last] {
                    lemma_first_true_found(textures, last);
                } else {
                    assert(forall|i: int| 0 <= i < textures.len() ==> !textures[i]);
                }
            },
        }
    }
}

/// A bundle with a block that is not loaded fails with a block error,
/// whether or not a texture is missing as well: the error names the first
/// such block of the plan. A texture error is returned only when every
/// block is loaded, and names the first texture that is not.
pub proof fn law_block_failure_first(tables: Tables, program: Program, plan: Seq<Binding>)
    ensures
        match first_true(Seq::new(plan.len(), |i: int| block_missing(tables, plan, i))) {
            Some(i) => bundle_verdict(bind_plan(tables, program, plan)) == Err::<(), BundleError>(
                BundleError::ErrorBundleBlock(plan[i]->Block_var),
            ),
            None => match first_true(
                Seq::new(plan.len(), |i: int| texture_missing(tables, plan, i)),
            ) {
                Some(i) => bundle_verdict(bind_plan(tables, program, plan)) == Err::<
                    (),
                    BundleError,
                >(BundleError::ErrorBundleTexture(plan[i]->Texture_var)),
                None => bundle_verdict(bind_plan(tables, program, plan)) == Ok::<(), BundleError>(
                    (),
                ),
            },
        },
{
    lemma_bind_plan(tables, program, plan);
}

impl Renderer {
    /// Binds the program `meta` and then every entry of the bundle's plan,
    /// in the plan's order.
    ///
    /// Blocks and textures that are not loaded are skipped. If any was
    /// skipped the call fails with the first skipped block, or, if no block
    /// was skipped, with the first skipped texture.
    pub fn bind_shader_bundle(
        device_tx: &mut Vec<Request>,
        resource: &Cache,
        meta: &ProgramMeta,
        bundle: &ShaderBundle,
    ) -> (r: Result<(), BundleError>)
        requires
            bundle.wf(),
            plan_bindable(resource@, bundle.plan@),
        ensures
            final(device_tx)@ == old(device_tx)@.push(
                Request::Cast(CastRequest::BindProgram(meta.name)),
            ) + bind_plan(resource@, meta.name, bundle.plan@).requests,
            r == bundle_verdict(bind_plan(resource@, meta.name, bundle.plan@)),
            (exists|i: int| 0 <= i < bundle.plan@.len() && block_missing(resource@, bundle.plan@, i))
                ==> r matches Err(BundleError::ErrorBundleBlock(_)),
    {
        device_tx.push(Request::Cast(CastRequest::BindProgram(meta.name)));
        let ghost start = device_tx@;
        let mut block_slot: usize = 0;
        let mut texture_slot: usize = 0;
        let mut block_fail: Option<VarBlock> = None;
        let mut texture_fail: Option<VarTexture> = None;
        let mut k: usize = 0;
        proof {
            assert(bundle.plan@.take(0) =~= Seq::<Binding>::empty());
            assert(device_tx@ =~= start + bind_plan(
                resource@,
                meta.name,
                bundle.plan@.take(0),
            ).requests);
        }
        while k < bundle.plan.len()
            invariant
                k <= bundle.plan@.len(),
                bundle.wf(),
                plan_bindable(resource@, bundle.plan@),
                block_slot <= k,
                texture_slot <= k,
                ({
                    let state = bind_plan(resource@, meta.name, bundle.plan@.take(k as int));
                    &&& device_tx@ == start + state.requests
                    &&& block_slot == state.block_slot
                    &&& texture_slot == state.texture_slot
                    &&& block_fail == state.block_fail
                    &&& texture_fail == state.texture_fail
                }),
            decreases bundle.plan@.len() - k,
        {
            let ghost state = bind_plan(resource@, meta.name, bundle.plan@.take(k as int));
            proof {
                assert(bundle.plan@.take(k + 1).drop_last() =~= bundle.plan@.take(k as int));
                assert(bundle.plan@.take(k + 1).last() == bundle.plan@[k as int]);
            }
            match bundle.plan[k] {
                Binding::Uniform { var, location, value } => {
                    device_tx.push(Request::Cast(CastRequest::BindUniform(location, value)));
                },
                Binding::Block { var, buffer } => {
                    match resource.buffers[buffer] {
                        Future::Loaded(block) => {
                            device_tx.push(
                                Request::Cast(
                                    CastRequest::BindUniformBlock(meta.name, block_slot, var, block),
                                ),
                            );
                            block_slot += 1;
                        },
                        _ => {
                            if block_fail.is_none() {
                                block_fail = Some(var);
                            }
                        },
                    }
                },
                Binding::Texture { var, location, texture, sampler } => {
                    let sam = match sampler {
                        Some(token) => Some(*resource.samplers[token].unwrap()),
                        None => None,
                    };
                    match resource.textures[texture] {
                        Future::Loaded(name) => {
                            device_tx.push(
                                Request::Cast(
                                    CastRequest::BindUniform(
                                        location,
                                        UniformValue::ValueI32(texture_slot as i32),
                                    ),
                                ),
                            );
                            device_tx.push(
                                Request::Cast(CastRequest::BindTexture(texture_slot, name, sam)),
                            );
                            texture_slot += 1;
                        },
                        _ => {
                            if texture_fail.is_none() {
                                texture_fail = Some(var);
                            }
                        },
                    }
                },
            }
            proof {
                let next = bind_plan(resource@, meta.name, bundle.plan@.take(k + 1));
                assert(next == bind_entry(resource@, meta.name, state, bundle.plan@[k as int]));
                assert(device_tx@ =~= start + next.requests);
            }
            k += 1;
        }
        proof {
            assert(bundle.plan@.take(k as int) =~= bundle.plan@);
            lemma_bind_plan(resource@, meta.name, bundle.plan@);
            let blocks = Seq::new(
                bundle.plan@.len(),
                |i: int| block_missing(resource@, bundle.plan@, i),
            );
            lemma_first_true(blocks);
            if exists|i: int|
                0 <= i < bundle.plan@.len() && block_missing(resource@, bundle.plan@, i) {
                let i = choose|i: int|
                    0 <= i < bundle.plan@.len() && block_missing(resource@, bundle.plan@, i);
                assert(blocks[i]);
            }
        }
        match (block_fail, texture_fail) {
            (Some(bv), _) => Err(BundleError::ErrorBundleBlock(bv)),
            (_, Some(tv)) => Err(BundleError::ErrorBundleTexture(tv)),
            (None, None) => Ok(()),
        }
    }
}

} // verus!
