//! Shader parameters: the named values a caller hands to a program, the
//! sink that checks them against the program's interface, and the bundle
//! that results.

use vstd::prelude::*;
use crate::{BufferHandle, ProgramHandle, SamplerHandle, TextureHandle};
use crate::device::shade::{Location, ProgramMeta, UniformValue};

verus! {

/// Index of a uniform in the interface of its program.
pub type VarUniform = usize;

/// Index of a uniform block in the interface of its program.
pub type VarBlock = usize;

/// Index of a texture sampler in the interface of its program.
pub type VarTexture = usize;

/// Largest number of parameters a bundle can hold: texture units are
/// numbered by signed 32-bit integers.
pub const MAX_PARAMETERS: usize = 0x7fff_ffff;

/// What a shader parameter holds.
#[derive(Clone, Copy, Debug, PartialEq, Eq)]
pub enum ParamValue {
    /// A plain uniform value.
    Uniform(UniformValue),
    /// The buffer behind a uniform block.
    Block(BufferHandle),
    /// A texture, with an optional sampler.
    Texture(TextureHandle, Option<SamplerHandle>),
}

/// One named shader parameter.
#[derive(Clone, Debug, PartialEq, Eq)]
pub struct Param {
    /// Name of the program variable the value is meant for.
    pub name: String,
    pub value: ParamValue,
}

/// A parameter and a program that do not fit: the kind of the variable and
/// its name.
#[derive(Clone, Debug, PartialEq, Eq)]
pub enum ParameterError {
    ErrorParamUniform(String),
    ErrorParamBlock(String),
    ErrorParamTexture(String),
}

/// Why a set of parameters could not be bundled with a program.
#[derive(Clone, Debug, PartialEq, Eq)]
pub enum ParameterLinkError {
    /// The program was refused by the device.
    ErrorBadProgram,
    /// A parameter names a variable that the program does not declare.
    ErrorUnusedParameter(ParameterError),
    /// The program declares a variable that no parameter provides.
    ErrorMissingParameter(ParameterError),
}

/// One entry of a binding plan: a parameter value and the program variable
/// that receives it.
#[allow(inconsistent_fields)]
#[derive(Clone, Copy, Debug, PartialEq, Eq)]
pub enum Binding {
    Uniform { var: VarUniform, location: Location, value: UniformValue },
    Block { var: VarBlock, buffer: BufferHandle },
    Texture {
        var: VarTexture,
        location: Location,
        texture: TextureHandle,
        sampler: Option<SamplerHandle>,
    },
}

/// Index of the first `true` in `marks`.
pub open spec fn first_true(marks: Seq<bool>) -> Option<int> {
    if exists|i: int| 0 <= i < marks.len() && marks[i] {
        Some(
            choose|i: int| 0 <= i < marks.len() && marks[i] && forall|j: int| 0 <= j < i ==> !marks[j],
        )
    } else {
        None
    }
}

/// `first_true` is `index` where `index` is marked and no earlier index is.
pub proof fn lemma_first_true_found(marks: Seq<bool>, index: int)
    requires
        0 <= index < marks.len(),
        marks[index],
        forall|j: int| 0 <= j < index ==> !marks[j],
    ensures
        first_true(marks) == Some(index),
{
    let found = choose|i: int|
        0 <= i < marks.len() && marks[i] && forall|j: int| 0 <= j < i ==> !marks[j];
    assert(found == index) by {
        if found < index {
            assert(!marks[found]);
        }
        if index < found {
            assert(!marks[index]);
        }
    }
}

/// What `first_true` returns, spelled out.
pub proof fn lemma_first_true(marks: Seq<bool>)
    ensures
        match first_true(marks) {
            Some(index) => 0 <= index < marks.len() && marks[index] && forall|j: int|
                0 <= j < index ==> !marks[j],
            None => forall|i: int| 0 <= i < marks.len() ==> !marks[i],
        },
{
    if exists|i: int| 0 <= i < marks.len() && marks[i] {
        let any = choose|i: int| 0 <= i < marks.len() && marks[i];
        lemma_least_true(marks, any);
    }
}

proof fn lemma_least_true(marks: Seq<bool>, bound: int)
    requires
        0 <= bound < marks.len(),
        marks[bound],
    ensures
        exists|i: int| 0 <= i < marks.len() && marks[i] && forall|j: int| 0 <= j < i ==> !marks[j],
    decreases bound,
{
    if exists|j: int| 0 <= j < bound && marks[j] {
        let earlier = choose|j: int| 0 <= j < bound && marks[j];
        lemma_least_true(marks, earlier);
    } else {
        assert(forall|j: int| 0 <= j < bound ==> !marks[j]);
    }
}

/// Position of the first entry of `names` that equals `name`.
pub open spec fn position(names: Seq<Seq<char>>, name: Seq<char>) -> Option<int> {
    first_true(Seq::new(names.len(), |i: int| names[i] == name))
}

/// Index of the first slot that is not filled.
pub open spec fn first_unfilled(filled: Seq<bool>) -> Option<int> {
    first_true(Seq::new(filled.len(), |i: int| !filled[i]))
}

/// Names of the uniforms a program declares, by index.
pub open spec fn uniform_names(meta: ProgramMeta) -> Seq<Seq<char>> {
    Seq::new(meta.uniforms@.len(), |i: int| meta.uniforms@[i].name@)
}

/// Names of the uniform blocks a program declares, by index.
pub open spec fn block_names(meta: ProgramMeta) -> Seq<Seq<char>> {
    Seq::new(meta.blocks@.len(), |i: int| meta.blocks@[i].name@)
}

/// Names of the texture samplers a program declares, by index.
pub open spec fn texture_names(meta: ProgramMeta) -> Seq<Seq<char>> {
    Seq::new(meta.textures@.len(), |i: int| meta.textures@[i].name@)
}

/// Index of the first uniform of `meta` called `name`.
pub fn find_uniform_var(meta: &ProgramMeta, name: &String) -> (r: Option<VarUniform>)
    ensures
        r matches Some(var) ==> position(uniform_names(*meta), name@) == Some(var as int),
        r is None ==> position(uniform_names(*meta), name@) is None,
{
    let mut i: usize = 0;
    while i < meta.uniforms.len()
        invariant
            i <= meta.uniforms@.len(),
            forall|j: int| 0 <= j < i ==> uniform_names(*meta)[j] != name@,
        decreases meta.uniforms@.len() - i,
    {
        if meta.uniforms[i].name == *name {
            proof {
                lemma_first_true_found(Seq::new(uniform_names(*meta).len(), |i: int| uniform_names(*meta)[i] == name@), i as int);
            }
            return Some(i);
        }
        i += 1;
    }
    proof {
        lemma_first_true(Seq::new(uniform_names(*meta).len(), |i: int| uniform_names(*meta)[i] == name@));
    }
    None
}

/// Index of the first uniform block of `meta` called `name`.
pub fn find_block_var(meta: &ProgramMeta, name: &String) -> (r: Option<VarBlock>)
    ensures
        r matches Some(var) ==> position(block_names(*meta), name@) == Some(var as int),
        r is None ==> position(block_names(*meta), name@) is None,
{
    let mut i: usize = 0;
    while i < meta.blocks.len()
        invariant
            i <= meta.blocks@.len(),
            forall|j: int| 0 <= j < i ==> block_names(*meta)[j] != name@,
        decreases meta.blocks@.len() - i,
    {
        if meta.blocks[i].name == *name {
            proof {
                lemma_first_true_found(Seq::new(block_names(*meta).len(), |i: int| block_names(*meta)[i] == name@), i as int);
            }
            return Some(i);
        }
        i += 1;
    }
    proof {
        lemma_first_true(Seq::new(block_names(*meta).len(), |i: int| block_names(*meta)[i] == name@));
    }
    None
}

/// Index of the first texture sampler of `meta` called `name`.
pub fn find_texture_var(meta: &ProgramMeta, name: &String) -> (r: Option<VarTexture>)
    ensures
        r matches Some(var) ==> position(texture_names(*meta), name@) == Some(var as int),
        r is None ==> position(texture_names(*meta), name@) is None,
{
    let mut i: usize = 0;
    while i < meta.textures.len()
        invariant
            i <= meta.textures@.len(),
            forall|j: int| 0 <= j < i ==> texture_names(*meta)[j] != name@,
        decreases meta.textures@.len() - i,
    {
        if meta.textures[i].name == *name {
            proof {
                lemma_first_true_found(Seq::new(texture_names(*meta).len(), |i: int| texture_names(*meta)[i] == name@), i as int);
            }
            return Some(i);
        }
        i += 1;
    }
    proof {
        lemma_first_true(Seq::new(texture_names(*meta).len(), |i: int| texture_names(*meta)[i] == name@));
    }
    None
}

/// The program variable a parameter is meant for: the first variable of the
/// parameter's kind that carries its name.
pub open spec fn param_var(meta: ProgramMeta, param: Param) -> Option<int> {
    match param.value {
        ParamValue::Uniform(_) => position(uniform_names(meta), param.name@),
        ParamValue::Block(_) => position(block_names(meta), param.name@),
        ParamValue::Texture(_, _) => position(texture_names(meta), param.name@),
    }
}

/// The plan entry that hands the value of `param` to variable `var`.
pub open spec fn param_binding(meta: ProgramMeta, param: Param, var: int) -> Binding {
    match param.value {
        ParamValue::Uniform(value) => Binding::Uniform {
            var: var as usize,
            location: meta.uniforms@[var].location,
            value,
        },
        ParamValue::Block(buffer) => Binding::Block { var: var as usize, buffer },
        ParamValue::Texture(texture, sampler) => Binding::Texture {
            var: var as usize,
            location: meta.textures@[var].location,
            texture,
            sampler,
        },
    }
}

/// The error that reports `param`: its kind and its name.
pub open spec fn param_error(param: Param) -> ParameterError {
    match param.value {
        ParamValue::Uniform(_) => ParameterError::ErrorParamUniform(param.name),
        ParamValue::Block(_) => ParameterError::ErrorParamBlock(param.name),
        ParamValue::Texture(_, _) => ParameterError::ErrorParamTexture(param.name),
    }
}

/// Whether one of the first `upto` parameters is meant for uniform `var`.
pub open spec fn provides_uniform(meta: ProgramMeta, params: Seq<Param>, upto: int, var: int) -> bool {
    exists|j: int|
        0 <= j < upto && j < params.len() && (#[trigger] params[j]).value is Uniform && param_var(
            meta,
            params[j],
        ) == Some(var)
}

/// Whether one of the first `upto` parameters is meant for block `var`.
pub open spec fn provides_block(meta: ProgramMeta, params: Seq<Param>, upto: int, var: int) -> bool {
    exists|j: int|
        0 <= j < upto && j < params.len() && (#[trigger] params[j]).value is Block && param_var(
            meta,
            params[j],
        ) == Some(var)
}

/// Whether one of the first `upto` parameters is meant for texture `var`.
pub open spec fn provides_texture(meta: ProgramMeta, params: Seq<Param>, upto: int, var: int) -> bool {
    exists|j: int|
        0 <= j < upto && j < params.len() && (#[trigger] params[j]).value is Texture && param_var(
            meta,
            params[j],
        ) == Some(var)
}

/// Whether the program declares a variable for every parameter.
pub open spec fn links(meta: ProgramMeta, params: Seq<Param>) -> bool {
    forall|j: int| 0 <= j < params.len() ==> param_var(meta, #[trigger] params[j]) is Some
}

/// Whether `index` is the first parameter for which the program declares no
/// variable.
pub open spec fn first_unused(meta: ProgramMeta, params: Seq<Param>, index: int) -> bool {
    &&& 0 <= index < params.len()
    &&& param_var(meta, params[index]) is None
    &&& forall|j: int| 0 <= j < index ==> param_var(meta, #[trigger] params[j]) is Some
}

/// The binding plan of parameters that link: one entry per parameter, in
/// their order.
pub open spec fn plan_of(meta: ProgramMeta, params: Seq<Param>) -> Seq<Binding> {
    Seq::new(
        params.len(),
        |j: int| param_binding(meta, params[j], param_var(meta, params[j]).unwrap()),
    )
}

/// The first program variable that is not filled, uniforms before blocks
/// before textures, as the error that reports it.
pub open spec fn missing(
    meta: ProgramMeta,
    uniforms: Seq<bool>,
    blocks: Seq<bool>,
    textures: Seq<bool>,
) -> Option<ParameterError> {
    match first_unfilled(uniforms) {
        Some(i) => Some(ParameterError::ErrorParamUniform(meta.uniforms@[i].name)),
        None => match first_unfilled(blocks) {
            Some(i) => Some(ParameterError::ErrorParamBlock(meta.blocks@[i].name)),
            None => match first_unfilled(textures) {
                Some(i) => Some(ParameterError::ErrorParamTexture(meta.textures@[i].name)),
                None => None,
            },
        },
    }
}

/// Records which variables of a program have been asked for.
pub struct MetaSink<'a> {
    pub prog: &'a ProgramMeta,
    /// For each uniform of the program, whether it was asked for.
    pub uniforms: Vec<bool>,
    pub blocks: Vec<bool>,
    pub textures: Vec<bool>,
}

fn unfilled(count: usize) -> (slots: Vec<bool>)
    ensures
        slots@.len() == count,
        forall|i: int| 0 <= i < count ==> !slots@[i],
{
    let mut slots: Vec<bool> = Vec::new();
    while slots.len() < count
        invariant
            slots@.len() <= count,
            forall|i: int| 0 <= i < slots@.len() ==> !slots@[i],
        decreases count - slots@.len(),
    {
        slots.push(false);
    }
    slots
}

fn find_unfilled(slots: &Vec<bool>) -> (r: Option<usize>)
    ensures
        r matches Some(i) ==> first_unfilled(slots@) == Some(i as int) && i < slots@.len(),
        r is None ==> first_unfilled(slots@) is None,
{
    let ghost marks = Seq::new(slots@.len(), |i: int| !slots@[i]);
    let mut i: usize = 0;
    while i < slots.len()
        invariant
            i <= slots@.len(),
            marks == Seq::new(slots@.len(), |i: int| !slots@[i]),
            forall|j: int| 0 <= j < i ==> !marks[j],
        decreases slots@.len() - i,
    {
        if !slots[i] {
            proof {
                lemma_first_true_found(marks, i as int);
            }
            return Some(i);
        }
        i += 1;
    }
    proof {
        lemma_first_true(marks);
    }
    None
}

impl<'a> MetaSink<'a> {
    /// There is one slot per variable of the program.
    pub open spec fn wf(&self) -> bool {
        &&& self.uniforms@.len() == self.prog.uniforms@.len()
        &&& self.blocks@.len() == self.prog.blocks@.len()
        &&& self.textures@.len() == self.prog.textures@.len()
    }

    /// A sink for `meta` in which no variable has been asked for.
    pub fn new(meta: &'a ProgramMeta) -> (sink: MetaSink<'a>)
        ensures
            sink.wf(),
            *sink.prog == *meta,
            forall|i: int| 0 <= i < sink.uniforms@.len() ==> !sink.uniforms@[i],
            forall|i: int| 0 <= i < sink.blocks@.len() ==> !sink.blocks@[i],
            forall|i: int| 0 <= i < sink.textures@.len() ==> !sink.textures@[i],
    {
        MetaSink {
            prog: meta,
            uniforms: unfilled(meta.uniforms.len()),
            blocks: unfilled(meta.blocks.len()),
            textures: unfilled(meta.textures.len()),
        }
    }

    /// Looks up the uniform called `name` and marks it as asked for.
    pub fn find_uniform(&mut self, name: &String) -> (r: Option<VarUniform>)
        requires
            old(self).wf(),
        ensures
            final(self).wf(),
            *final(self).prog == *old(self).prog,
            final(self).blocks@ == old(self).blocks@,
            final(self).textures@ == old(self).textures@,
            match r {
                Some(var) => position(uniform_names(*old(self).prog), name@) == Some(var as int)
                    && var < old(self).uniforms@.len() && final(self).uniforms@ == old(self).uniforms@.update(var as int, true),
                None => position(uniform_names(*old(self).prog), name@) is None && final(self).uniforms@ == old(self).uniforms@,
            },
    {
        let found = find_uniform_var(self.prog, name);
        match found {
            Some(var) => {
                proof {
                    lemma_first_true(
                        Seq::new(
                            uniform_names(*self.prog).len(),
                            |i: int| uniform_names(*self.prog)[i] == name@,
                        ),
                    );
                }
                self.uniforms.set(var, true);
            },
            None => (),
        }
        found
    }

    /// Looks up the uniform block called `name` and marks it as asked for.
    pub fn find_block(&mut self, name: &String) -> (r: Option<VarBlock>)
        requires
            old(self).wf(),
        ensures
            final(self).wf(),
            *final(self).prog == *old(self).prog,
            final(self).uniforms@ == old(self).uniforms@,
            final(self).textures@ == old(self).textures@,
            match r {
                Some(var) => position(block_names(*old(self).prog), name@) == Some(var as int)
                    && var < old(self).blocks@.len() && final(self).blocks@ == old(self).blocks@.update(var as int, true),
                None => position(block_names(*old(self).prog), name@) is None && final(self).blocks@ == old(self).blocks@,
            },
    {
        let found = find_block_var(self.prog, name);
        match found {
            Some(var) => {
                proof {
                    lemma_first_true(
                        Seq::new(
                            block_names(*self.prog).len(),
                            |i: int| block_names(*self.prog)[i] == name@,
                        ),
                    );
                }
                self.blocks.set(var, true);
            },
            None => (),
        }
        found
    }

    /// Looks up the texture sampler called `name` and marks it as asked for.
    pub fn find_texture(&mut self, name: &String) -> (r: Option<VarTexture>)
        requires
            old(self).wf(),
        ensures
            final(self).wf(),
            *final(self).prog == *old(self).prog,
            final(self).uniforms@ == old(self).uniforms@,
            final(self).blocks@ == old(self).blocks@,
            match r {
                Some(var) => position(texture_names(*old(self).prog), name@) == Some(var as int)
                    && var < old(self).textures@.len() && final(self).textures@ == old(self).textures@.update(var as int, true),
                None => position(texture_names(*old(self).prog), name@) is None && final(self).textures@ == old(self).textures@,
            },
    {
        let found = find_texture_var(self.prog, name);
        match found {
            Some(var) => {
                proof {
                    lemma_first_true(
                        Seq::new(
                            texture_names(*self.prog).len(),
                            |i: int| texture_names(*self.prog)[i] == name@,
                        ),
                    );
                }
                self.textures.set(var, true);
            },
            None => (),
        }
        found
    }

    /// Checks that every variable of the program was asked for, and reports
    /// the first one that was not: uniforms first, then blocks, then
    /// textures.
    pub fn complete(&self) -> (r: Result<(), ParameterError>)
        requires
            self.wf(),
        ensures
            r == match missing(*self.prog, self.uniforms@, self.blocks@, self.textures@) {
                Some(error) => Err::<(), ParameterError>(error),
                None => Ok(()),
            },
    {
        match find_unfilled(&self.uniforms) {
            Some(i) => return Err(ParameterError::ErrorParamUniform(self.prog.uniforms[i].name.clone())),
            None => (),
        }
        match find_unfilled(&self.blocks) {
            Some(i) => return Err(ParameterError::ErrorParamBlock(self.prog.blocks[i].name.clone())),
            None => (),
        }
        match find_unfilled(&self.textures) {
            Some(i) => Err(ParameterError::ErrorParamTexture(self.prog.textures[i].name.clone())),
            None => Ok(()),
        }
    }
}

/// The uniform slots of a sink that started as `before` and has seen the
/// first `upto` parameters.
pub open spec fn uniforms_after(meta: ProgramMeta, params: Seq<Param>, upto: int, before: Seq<bool>) -> Seq<
    bool,
> {
    Seq::new(before.len(), |i: int| before[i] || provides_uniform(meta, params, upto, i))
}

/// The block slots of a sink that started as `before` and has seen the
/// first `upto` parameters.
pub open spec fn blocks_after(meta: ProgramMeta, params: Seq<Param>, upto: int, before: Seq<bool>) -> Seq<
    bool,
> {
    Seq::new(before.len(), |i: int| before[i] || provides_block(meta, params, upto, i))
}

/// The texture slots of a sink that started as `before` and has seen the
/// first `upto` parameters.
pub open spec fn textures_after(meta: ProgramMeta, params: Seq<Param>, upto: int, before: Seq<bool>) -> Seq<
    bool,
> {
    Seq::new(before.len(), |i: int| before[i] || provides_texture(meta, params, upto, i))
}

/// Looking at one more parameter adds the variable it is meant for to the
/// variables provided, and nothing else.
pub proof fn lemma_provides_next(meta: ProgramMeta, params: Seq<Param>, upto: int, var: int)
    requires
        0 <= upto < params.len(),
    ensures
        provides_uniform(meta, params, upto + 1, var) == (provides_uniform(meta, params, upto, var)
            || (params[upto].value is Uniform && param_var(meta, params[upto]) == Some(var))),
        provides_block(meta, params, upto + 1, var) == (provides_block(meta, params, upto, var)
            || (params[upto].value is Block && param_var(meta, params[upto]) == Some(var))),
        provides_texture(meta, params, upto + 1, var) == (provides_texture(meta, params, upto, var)
            || (params[upto].value is Texture && param_var(meta, params[upto]) == Some(var))),
{
}

/// The slots of a sink after one more parameter: the slot of the variable
/// the parameter is meant for is set, and the others are as before.
pub proof fn lemma_slots_next(
    meta: ProgramMeta,
    params: Seq<Param>,
    upto: int,
    uniforms: Seq<bool>,
    blocks: Seq<bool>,
    textures: Seq<bool>,
)
    requires
        0 <= upto < params.len(),
        param_var(meta, params[upto]) matches Some(var) && 0 <= var && match params[upto].value {
            ParamValue::Uniform(_) => var < uniforms.len(),
            ParamValue::Block(_) => var < blocks.len(),
            ParamValue::Texture(_, _) => var < textures.len(),
        },
    ensures
        uniforms_after(meta, params, upto + 1, uniforms) == if params[upto].value is Uniform {
            uniforms_after(meta, params, upto, uniforms).update(
                param_var(meta, params[upto]).unwrap(),
                true,
            )
        } else {
            uniforms_after(meta, params, upto, uniforms)
        },
        blocks_after(meta, params, upto + 1, blocks) == if params[upto].value is Block {
            blocks_after(meta, params, upto, blocks).update(
                param_var(meta, params[upto]).unwrap(),
                true,
            )
        } else {
            blocks_after(meta, params, upto, blocks)
        },
        textures_after(meta, params, upto + 1, textures) == if params[upto].value is Texture {
            textures_after(meta, params, upto, textures).update(
                param_var(meta, params[upto]).unwrap(),
                true,
            )
        } else {
            textures_after(meta, params, upto, textures)
        },
{
    let var = param_var(meta, params[upto]).unwrap();
    let u = if params[upto].value is Uniform {
        uniforms_after(meta, params, upto, uniforms).update(var, true)
    } else {
        uniforms_after(meta, params, upto, uniforms)
    };
    assert forall|i: int| 0 <= i < uniforms.len() implies uniforms_after(
        meta,
        params,
        upto + 1,
        uniforms,
    )[i] == u[i] by {
        lemma_provides_next(meta, params, upto, i);
    }
    assert(uniforms_after(meta, params, upto + 1, uniforms) =~= u);
    let b = if params[upto].value is Block {
        blocks_after(meta, params, upto, blocks).update(var, true)
    } else {
        blocks_after(meta, params, upto, blocks)
    };
    assert forall|i: int| 0 <= i < blocks.len() implies blocks_after(
        meta,
        params,
        upto + 1,
        blocks,
    )[i] == b[i] by {
        lemma_provides_next(meta, params, upto, i);
    }
    assert(blocks_after(meta, params, upto + 1, blocks) =~= b);
    let t = if params[upto].value is Texture {
        textures_after(meta, params, upto, textures).update(var, true)
    } else {
        textures_after(meta, params, upto, textures)
    };
    assert forall|i: int| 0 <= i < textures.len() implies textures_after(
        meta,
        params,
        upto + 1,
        textures,
    )[i] == t[i] by {
        lemma_provides_next(meta, params, upto, i);
    }
    assert(textures_after(meta, params, upto + 1, textures) =~= t);
}

/// Before any parameter was seen, the slots are as they started.
pub proof fn lemma_slots_start(
    meta: ProgramMeta,
    params: Seq<Param>,
    uniforms: Seq<bool>,
    blocks: Seq<bool>,
    textures: Seq<bool>,
)
    ensures
        uniforms_after(meta, params, 0, uniforms) == uniforms,
        blocks_after(meta, params, 0, blocks) == blocks,
        textures_after(meta, params, 0, textures) == textures,
{
    assert(uniforms_after(meta, params, 0, uniforms) =~= uniforms);
    assert(blocks_after(meta, params, 0, blocks) =~= blocks);
    assert(textures_after(meta, params, 0, textures) =~= textures);
}

/// Looks up the variable `param` is meant for, marks it in the sink and
/// returns the plan entry that binds the parameter to it.
pub fn link_param(param: &Param, sink: &mut MetaSink) -> (r: Result<Binding, ParameterError>)
    requires
        old(sink).wf(),
    ensures
        final(sink).wf(),
        *final(sink).prog == *old(sink).prog,
        match r {
            Ok(binding) => {
                &&& param_var(*old(sink).prog, *param) matches Some(var)
                &&& 0 <= var
                &&& binding == param_binding(*old(sink).prog, *param, var)
                &&& match param.value {
                    ParamValue::Uniform(_) => var < old(sink).uniforms@.len(),
                    ParamValue::Block(_) => var < old(sink).blocks@.len(),
                    ParamValue::Texture(_, _) => var < old(sink).textures@.len(),
                }
                &&& final(sink).uniforms@ == if param.value is Uniform {
                    old(sink).uniforms@.update(var, true)
                } else {
                    old(sink).uniforms@
                }
                &&& final(sink).blocks@ == if param.value is Block {
                    old(sink).blocks@.update(var, true)
                } else {
                    old(sink).blocks@
                }
                &&& final(sink).textures@ == if param.value is Texture {
                    old(sink).textures@.update(var, true)
                } else {
                    old(sink).textures@
                }
            },
            Err(error) => param_var(*old(sink).prog, *param) is None && error == param_error(
                *param,
            ),
        },
{
    match param.value {
        ParamValue::Uniform(value) => {
            match sink.find_uniform(&param.name) {
                Some(var) => Ok(
                    Binding::Uniform { var, location: sink.prog.uniforms[var].location, value },
                ),
                None => Err(ParameterError::ErrorParamUniform(param.name.clone())),
            }
        },
        ParamValue::Block(buffer) => {
            match sink.find_block(&param.name) {
                Some(var) => Ok(Binding::Block { var, buffer }),
                None => Err(ParameterError::ErrorParamBlock(param.name.clone())),
            }
        },
        ParamValue::Texture(texture, sampler) => {
            match sink.find_texture(&param.name) {
                Some(var) => Ok(
                    Binding::Texture {
                        var,
                        location: sink.prog.textures[var].location,
                        texture,
                        sampler,
                    },
                ),
                None => Err(ParameterError::ErrorParamTexture(param.name.clone())),
            }
        },
    }
}

/// Builds the binding plan of `data` against the program of `sink`: every
/// parameter is looked up among the variables of its kind, in the order of
/// `data`, and the variables met are marked in the sink. Stops at the first
/// parameter for which the program declares no variable.
pub fn create_link(data: &Vec<Param>, sink: &mut MetaSink) -> (r: Result<
    Vec<Binding>,
    ParameterError,
>)
    requires
        old(sink).wf(),
    ensures
        final(sink).wf(),
        *final(sink).prog == *old(sink).prog,
        match r {
            Ok(plan) => {
                &&& links(*old(sink).prog, data@)
                &&& plan@ == plan_of(*old(sink).prog, data@)
                &&& final(sink).uniforms@ == uniforms_after(
                    *old(sink).prog,
                    data@,
                    data@.len() as int,
                    old(sink).uniforms@,
                )
                &&& final(sink).blocks@ == blocks_after(
                    *old(sink).prog,
                    data@,
                    data@.len() as int,
                    old(sink).blocks@,
                )
                &&& final(sink).textures@ == textures_after(
                    *old(sink).prog,
                    data@,
                    data@.len() as int,
                    old(sink).textures@,
                )
            },
            Err(error) => exists|index: int|
                first_unused(*old(sink).prog, data@, index) && error == param_error(data@[index]),
        },
{
    let ghost meta = *sink.prog;
    let ghost before = *sink;
    let mut plan: Vec<Binding> = Vec::new();
    let mut k: usize = 0;
    proof {
        lemma_slots_start(meta, data@, before.uniforms@, before.blocks@, before.textures@);
    }
    while k < data.len()
        invariant
            k <= data@.len(),
            sink.wf(),
            before.wf(),
            *sink.prog == meta,
            before == *old(sink),
            *before.prog == meta,
            plan@.len() == k,
            forall|j: int| 0 <= j < k ==> param_var(meta, #[trigger] data@[j]) is Some,
            forall|j: int|
                0 <= j < k ==> #[trigger] plan@[j] == param_binding(
                    meta,
                    data@[j],
                    param_var(meta, data@[j]).unwrap(),
                ),
            sink.uniforms@ == uniforms_after(meta, data@, k as int, before.uniforms@),
            sink.blocks@ == blocks_after(meta, data@, k as int, before.blocks@),
            sink.textures@ == textures_after(meta, data@, k as int, before.textures@),
        decreases data@.len() - k,
    {
        match link_param(&data[k], sink) {
            Ok(binding) => {
                proof {
                    lemma_slots_next(
                        meta,
                        data@,
                        k as int,
                        before.uniforms@,
                        before.blocks@,
                        before.textures@,
                    );
                }
                plan.push(binding);
            },
            Err(error) => {
                proof {
                    assert(first_unused(meta, data@, k as int));
                }
                return Err(error);
            },
        }
        k += 1;
    }
    proof {
        assert(plan@ =~= plan_of(meta, data@));
    }
    Ok(plan)
}

/// A program token together with the parameters handed to the program and
/// the plan that binds them.
#[derive(Clone, Debug, PartialEq, Eq)]
pub struct ShaderBundle {
    pub program: ProgramHandle,
    /// The parameters as the caller gave them.
    pub data: Vec<Param>,
    /// One entry per parameter, in the order of `data`.
    pub plan: Vec<Binding>,
}

impl ShaderBundle {
    /// The plan is short enough for its texture units to be numbered.
    pub open spec fn wf(&self) -> bool {
        self.plan@.len() <= MAX_PARAMETERS
    }

    /// Whether the plan is short enough for its texture units to be
    /// numbered.
    pub fn is_wf(&self) -> (b: bool)
        ensures
            b == self.wf(),
    {
        self.plan.len() <= MAX_PARAMETERS
    }

    /// Token of the program this bundle belongs to.
    pub fn get_program(&self) -> (program: ProgramHandle)
        ensures
            program == self.program,
    {
        self.program
    }
}

} // verus!
