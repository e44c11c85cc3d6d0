//! Compute shaders as the simulation sees them: a compiled GL program and the
//! work group size that its source declares, and a pipeline that holds them.
use vstd::prelude::*;

use crate::layout::{declared_work_group_size, work_group_size_in};

verus! {

/// A compiled compute shader: the id of its GL program and the work group
/// size `(x, y, z)` that its source declares.
#[derive(Debug, Clone, Copy, PartialEq, Eq)]
pub struct ComputeShader {
    program_id: u32,
    work_group_size: (u32, u32, u32),
}

/// How a compute shader accesses a texture bound to an image unit.
#[derive(Debug, Clone, Copy)]
pub enum TextureAccess {
    ReadOnly,
    WriteOnly,
    ReadWrite,
}

/// Which memory accesses a barrier waits for.
#[derive(Debug, Clone, Copy)]
pub enum BarrierType {
    ShaderImageAccess,
    TextureFetch,
    All,
}

/// The number of work groups of `local` cells that covers `grid` cells along
/// one axis: the smallest count whose groups hold at least `grid` cells.
pub open spec fn groups_along(grid: int, local: int) -> int {
    (grid + local - 1) / local
}

impl ComputeShader {
    /// The shader whose GL program `program_id` was compiled from `source`.
    pub fn from_source(program_id: u32, source: &str) -> (r: ComputeShader)
        ensures
            r.spec_program_id() == program_id,
            r.spec_work_group_size() == declared_work_group_size(source@),
    {
        ComputeShader { program_id, work_group_size: Self::extract_work_group_size(source) }
    }

    /// The work group size `(x, y, z)` that a compute shader's source
    /// declares in its `layout(local_size_x = .., ..)` line; `1` for each
    /// axis that it leaves out.
    pub fn extract_work_group_size(source: &str) -> (r: (u32, u32, u32))
        ensures
            r == declared_work_group_size(source@),
    {
        work_group_size_in(source)
    }

    pub closed spec fn spec_program_id(self) -> u32 {
        self.program_id
    }

    pub closed spec fn spec_work_group_size(self) -> (u32, u32, u32) {
        self.work_group_size
    }

    /// The id of the GL program.
    pub fn program_id(&self) -> (r: u32)
        ensures
            r == self.spec_program_id(),
    {
        self.program_id
    }

    /// The work group size `(x, y, z)`.
    pub fn work_group_size(&self) -> (r: (u32, u32, u32))
        ensures
            r == self.spec_work_group_size(),
    {
        self.work_group_size
    }

    /// The number of work groups to dispatch along each axis so that they
    /// cover a grid of `grid_size` cells: each axis rounded up.
    pub fn dispatch_groups(&self, grid_size: (u32, u32, u32)) -> (r: (u32, u32, u32))
        requires
            self.spec_work_group_size().0 > 0,
            self.spec_work_group_size().1 > 0,
            self.spec_work_group_size().2 > 0,
            grid_size.0 + self.spec_work_group_size().0 - 1 <= u32::MAX,
            grid_size.1 + self.spec_work_group_size().1 - 1 <= u32::MAX,
            grid_size.2 + self.spec_work_group_size().2 - 1 <= u32::MAX,
        ensures
            r.0 == groups_along(grid_size.0 as int, self.spec_work_group_size().0 as int),
            r.1 == groups_along(grid_size.1 as int, self.spec_work_group_size().1 as int),
            r.2 == groups_along(grid_size.2 as int, self.spec_work_group_size().2 as int),
    {
        let (local_x, local_y, local_z) = self.work_group_size;
        (
            group_count(grid_size.0, local_x),
            group_count(grid_size.1, local_y),
            group_count(grid_size.2, local_z),
        )
    }
}

/// The number of work groups of `local` cells that covers `grid` cells.
pub fn group_count(grid: u32, local: u32) -> (r: u32)
    requires
        local > 0,
        grid + local - 1 <= u32::MAX,
    ensures
        r == groups_along(grid as int, local as int),
{
    (grid + (local - 1)) / local
}

/// The groups that `groups_along` counts cover the grid, and one group fewer
/// would not: `count * local >= grid > (count - 1) * local`.
pub proof fn lemma_groups_cover_grid(grid: int, local: int)
    requires
        grid >= 0,
        local > 0,
    ensures
        groups_along(grid, local) * local >= grid,
        (groups_along(grid, local) - 1) * local < grid,
{
    let n = groups_along(grid, local);
    let q = grid + local - 1;
    assert(q == n * local + q % local) by (nonlinear_arith)
        requires
            n == q / local,
            local > 0,
    ;
    assert(0 <= q % local < local) by (nonlinear_arith)
        requires
            local > 0,
    ;
    assert(n * local - local == (n - 1) * local) by (nonlinear_arith);
}

/// The number of 16 by 16 work groups that cover a square grid of
/// `grid_size` by `grid_size` cells: one partial sum of the total probability
/// is kept for each of them.
pub fn tile_count(grid_size: u32) -> (r: usize)
    requires
        grid_size + 15 <= u32::MAX,
        groups_along(grid_size as int, 16) * groups_along(grid_size as int, 16) <= u32::MAX,
    ensures
        r == groups_along(grid_size as int, 16) * groups_along(grid_size as int, 16),
{
    let per_side = group_count(grid_size, 16);
    (per_side * per_side) as usize
}

/// An ordered collection of compute shaders, addressed by the index at which
/// each was added.
pub struct ComputePipeline {
    shaders: Vec<ComputeShader>,
}

impl View for ComputePipeline {
    type V = Seq<ComputeShader>;

    closed spec fn view(&self) -> Seq<ComputeShader> {
        self.shaders@
    }
}

impl ComputePipeline {
    /// An empty pipeline.
    pub fn new() -> (r: ComputePipeline)
        ensures
            r@ == Seq::<ComputeShader>::empty(),
    {
        ComputePipeline { shaders: Vec::new() }
    }

    /// Appends `shader`.
    pub fn add_shader(&mut self, shader: ComputeShader)
        ensures
            final(self)@ == old(self)@.push(shader),
    {
        self.shaders.push(shader);
    }

    /// Appends a shader that was loaded and compiled, and returns the index
    /// at which it now stands.
    pub fn load_shader(&mut self, shader: ComputeShader) -> (index: usize)
        ensures
            final(self)@ == old(self)@.push(shader),
            index == old(self)@.len(),
    {
        self.shaders.push(shader);
        self.shaders.len() - 1
    }

    /// The shader at `index`, if there is one.
    pub fn get_shader(&self, index: usize) -> (r: Option<&ComputeShader>)
        ensures
            match r {
                Some(s) => index < self@.len() && *s == self@[index as int],
                None => index >= self@.len(),
            },
    {
        if index < self.shaders.len() {
            Some(&self.shaders[index])
        } else {
            None
        }
    }

    /// The shader at `index`, if there is one, for changing it in place.
    pub fn get_shader_mut(&mut self, index: usize) -> (r: Option<&mut ComputeShader>)
        ensures
            match r {
                Some(s) => {
                    &&& index < old(self)@.len()
                    &&& *s == old(self)@[index as int]
                    &&& final(self)@ == old(self)@.update(index as int, *final(s))
                },
                None => index >= old(self)@.len() && final(self)@ == old(self)@,
            },
    {
        if index < self.shaders.len() {
            Some(&mut self.shaders[index])
        } else {
            None
        }
    }
}

/// A shader added with `load_shader` is found by `get_shader` at the index
/// that `load_shader` returned, and the shaders added before it keep their
/// indices.
pub proof fn lemma_loaded_shader_found(before: Seq<ComputeShader>, shader: ComputeShader)
    ensures
        before.push(shader)[before.len() as int] == shader,
        forall|i: int| 0 <= i < before.len() ==> #[trigger] before.push(shader)[i] == before[i],
{
}

} // verus!
