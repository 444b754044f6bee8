use vstd::prelude::*;

use crate::error::ConvError;
use crate::geometry::{byte_len, crop_dims, cropped, grid_bytes, kernel_fits, SAMPLE_BYTES};
use crate::image::Image;
use crate::kernels::Kernel;

verus! {

/// Handle of a buffer: its position in the pipeline's buffer arena.
#[derive(Clone, Copy, Debug, PartialEq, Eq, Structural)]
pub struct BufferId {
    pub index: usize,
}

/// What a device buffer is used for.
#[derive(Clone, Copy, Debug, PartialEq, Eq, Structural)]
pub enum BufferUsage {
    /// Read by the compute program, written by the host once at creation
    /// (image samples, kernel coefficients).
    Input,
    /// Read and written by the compute program: an intermediate or final result.
    Result,
    /// Small read-only parameter block: image width and kernel size.
    Uniform,
    /// Host-readable destination of the final copies; never bound.
    Staging,
}

/// What a buffer holds when it is created.
pub enum BufferInit<T> {
    Uninit,
    Samples(Vec<T>),
    Words(Vec<u32>),
}

/// One buffer of the arena.
pub struct BufferDesc<T> {
    pub usage: BufferUsage,
    pub byte_size: u64,
    pub init: BufferInit<T>,
}

/// How the compute program sees a bound buffer.
#[derive(Clone, Copy, Debug, PartialEq, Eq, Structural)]
pub enum BindingKind {
    ReadOnlyStorage,
    Storage,
    Uniform,
}

/// The four buffers that one convolution pass binds.
#[derive(Clone, Copy, Debug, PartialEq, Eq, Structural)]
pub struct BindSet {
    pub input: BufferId,
    pub result: BufferId,
    pub kernel: BufferId,
    pub params: BufferId,
}

/// One entry of a binding descriptor.
#[derive(Clone, Copy, Debug, PartialEq, Eq, Structural)]
pub struct Binding {
    pub slot: u32,
    pub buffer: BufferId,
    pub min_size: u64,
    pub kind: BindingKind,
}

/// Byte size of the parameter block `[image width, kernel size]`.
pub const PARAMS_BYTES: u64 = 8;

/// The binding descriptor that `bind` stands for, in slot order.
pub open spec fn bindings_of(bind: BindSet) -> Seq<Binding> {
    seq![
        Binding { slot: 0, buffer: bind.input, min_size: SAMPLE_BYTES, kind: BindingKind::ReadOnlyStorage },
        Binding { slot: 1, buffer: bind.result, min_size: SAMPLE_BYTES, kind: BindingKind::Storage },
        Binding { slot: 2, buffer: bind.kernel, min_size: SAMPLE_BYTES, kind: BindingKind::ReadOnlyStorage },
        Binding { slot: 3, buffer: bind.params, min_size: PARAMS_BYTES, kind: BindingKind::Uniform },
    ]
}

impl BindSet {
    /// The binding entries, in the slot order the compute program expects:
    /// input, result, kernel coefficients, parameters.
    pub fn entries(&self) -> (r: Vec<Binding>)
        ensures
            r@ == bindings_of(*self),
    {
        let r = vec![
            Binding { slot: 0, buffer: self.input, min_size: SAMPLE_BYTES, kind: BindingKind::ReadOnlyStorage },
            Binding { slot: 1, buffer: self.result, min_size: SAMPLE_BYTES, kind: BindingKind::Storage },
            Binding { slot: 2, buffer: self.kernel, min_size: SAMPLE_BYTES, kind: BindingKind::ReadOnlyStorage },
            Binding { slot: 3, buffer: self.params, min_size: PARAMS_BYTES, kind: BindingKind::Uniform },
        ];
        assert(r@ =~= bindings_of(*self));
        r
    }
}

/// A recorded device command.
#[derive(Clone, Copy, Debug, PartialEq, Eq, Structural)]
pub enum Command {
    /// Run the compute program over a `groups_x` x `groups_y` grid, one
    /// invocation per output pixel.
    Dispatch { bind: BindSet, groups_x: u32, groups_y: u32 },
    /// Copy `size` bytes from the start of `src` to `dst` at `dst_offset`.
    Copy { src: BufferId, dst: BufferId, dst_offset: u64, size: u64 },
}

/// A chain of convolution passes under construction: an arena of buffers
/// and the append-only list of commands recorded so far.
pub struct Pipeline<T> {
    pub buffers: Vec<BufferDesc<T>>,
    pub commands: Vec<Command>,
}

/// `id` names a buffer of `bufs` with the given usage.
pub open spec fn has_usage<T>(bufs: Seq<BufferDesc<T>>, id: BufferId, usage: BufferUsage) -> bool {
    id.index < bufs.len() && bufs[id.index as int].usage == usage
}

/// `id` names a buffer of `bufs` that a pass may read samples from.
pub open spec fn is_source<T>(bufs: Seq<BufferDesc<T>>, id: BufferId) -> bool {
    has_usage(bufs, id, BufferUsage::Input) || has_usage(bufs, id, BufferUsage::Result)
}

/// Every buffer that `c` touches exists in `bufs` and is of the right kind.
pub open spec fn command_ok<T>(bufs: Seq<BufferDesc<T>>, c: Command) -> bool {
    match c {
        Command::Dispatch { bind, groups_x, groups_y } => {
            &&& is_source(bufs, bind.input)
            &&& has_usage(bufs, bind.result, BufferUsage::Result)
            &&& has_usage(bufs, bind.kernel, BufferUsage::Input)
            &&& has_usage(bufs, bind.params, BufferUsage::Uniform)
            &&& bufs[bind.result.index as int].byte_size == byte_len(groups_x, groups_y, 4)
        },
        Command::Copy { src, dst, dst_offset, size } => {
            &&& has_usage(bufs, src, BufferUsage::Result)
            &&& has_usage(bufs, dst, BufferUsage::Staging)
            &&& size <= bufs[src.index as int].byte_size
            &&& dst_offset + size <= bufs[dst.index as int].byte_size
        },
    }
}

/// Every command refers only to buffers of the arena, each used as its kind allows.
pub open spec fn commands_ok<T>(bufs: Seq<BufferDesc<T>>, cmds: Seq<Command>) -> bool {
    forall|i: int| 0 <= i < cmds.len() ==> #[trigger] command_ok(bufs, cmds[i])
}

/// Adding buffers to the arena keeps every recorded command valid.
proof fn lemma_commands_ok_extend<T>(bufs: Seq<BufferDesc<T>>, more: Seq<BufferDesc<T>>, cmds: Seq<Command>)
    requires
        commands_ok(bufs, cmds),
        more.len() >= bufs.len(),
        more.subrange(0, bufs.len() as int) == bufs,
    ensures
        commands_ok(more, cmds),
{
    assert forall|i: int| 0 <= i < cmds.len() implies #[trigger] command_ok(more, cmds[i]) by {
        assert(command_ok(bufs, cmds[i]));
        assert forall|j: int| 0 <= j < bufs.len() implies more[j] == bufs[j] by {
            assert(more.subrange(0, bufs.len() as int)[j] == more[j]);
        }
    }
}


/// A copy of `src`, sample for sample.
fn copy_samples<T: Copy>(src: &Vec<T>) -> (r: Vec<T>)
    ensures
        r@ == src@,
{
    let mut r: Vec<T> = Vec::with_capacity(src.len());
    let mut i: usize = 0;
    while i < src.len()
        invariant
            i <= src@.len(),
            r@ == src@.subrange(0, i as int),
        decreases src@.len() - i,
    {
        r.push(src[i]);
        i = i + 1;
    }
    assert(r@ =~= src@);
    r
}

/// The error, if any, that chaining a pass of a `kernel_size` kernel onto
/// the `image_size` samples in `input` reports.
pub open spec fn chain_error<T>(
    bufs: Seq<BufferDesc<T>>,
    input: BufferId,
    kernel_size: u32,
    image_size: (u32, u32),
) -> Option<ConvError> {
    if !kernel_fits(image_size.0, image_size.1, kernel_size) {
        Some(ConvError::InvalidDimensions)
    } else if !is_source(bufs, input) || bufs[input.index as int].byte_size < byte_len(
        image_size.0,
        image_size.1,
        4,
    ) {
        Some(ConvError::InvalidBuffer)
    } else if byte_len(kernel_size, kernel_size, 4) > u64::MAX {
        Some(ConvError::Allocation)
    } else {
        None
    }
}

/// The command that one pass records: its bindings start at `first`
/// (result, then kernel, then parameters) and its grid is `dims`.
pub open spec fn pass_command(input: BufferId, first: int, dims: (u32, u32)) -> Command {
    Command::Dispatch {
        bind: BindSet {
            input,
            result: BufferId { index: first as usize },
            kernel: BufferId { index: (first + 1) as usize },
            params: BufferId { index: (first + 2) as usize },
        },
        groups_x: dims.0,
        groups_y: dims.1,
    }
}

impl<T: Copy> Pipeline<T> {
    /// The buffers and commands are consistent with each other.
    pub open spec fn wf(&self) -> bool {
        &&& forall|i: int| 0 <= i < self.buffers@.len() ==> #[trigger] self.buffers@[i].byte_size > 0
        &&& commands_ok(self.buffers@, self.commands@)
    }

    /// An empty pipeline: no buffers, no commands.
    pub fn new() -> (r: Self)
        ensures
            r.wf(),
            r.buffers@.len() == 0,
            r.commands@.len() == 0,
    {
        Pipeline { buffers: Vec::new(), commands: Vec::new() }
    }

    /// Adds an input buffer that holds the samples of `image`.
    pub fn upload(&mut self, image: &Image<T>) -> (r: Result<BufferId, ConvError>)
        requires
            old(self).wf(),
            image.wf(),
        ensures
            final(self).wf(),
            r is Ok <==> 0 < byte_len(image.width, image.height, 4) <= u64::MAX,
            r is Err ==> r == Err::<BufferId, ConvError>(ConvError::Allocation) && *final(self) == *old(self),
            r is Ok ==> {
                &&& r->Ok_0.index == old(self).buffers@.len()
                &&& final(self).commands@ == old(self).commands@
                &&& final(self).buffers@.len() == old(self).buffers@.len() + 1
                &&& final(self).buffers@.subrange(0, old(self).buffers@.len() as int) == old(self).buffers@
                &&& final(self).buffers@.last().usage == BufferUsage::Input
                &&& final(self).buffers@.last().byte_size == byte_len(image.width, image.height, 4)
                &&& final(self).buffers@.last().init is Samples
                &&& final(self).buffers@.last().init->Samples_0@ == image.data@
            },
    {
        let size = match grid_bytes(image.width, image.height, 4) {
            Ok(n) => n,
            Err(e) => return Err(e),
        };
        let id = BufferId { index: self.buffers.len() };
        let ghost before = self.buffers@;
        let samples = copy_samples(&image.data);
        self.buffers.push(BufferDesc { usage: BufferUsage::Input, byte_size: size, init: BufferInit::Samples(samples) });
        proof {
            assert(self.buffers@.subrange(0, before.len() as int) =~= before);
            lemma_commands_ok_extend(before, self.buffers@, self.commands@);
            assert forall|i: int| 0 <= i < self.buffers@.len() implies #[trigger] self.buffers@[i].byte_size > 0 by {
                if i < before.len() {
                    assert(self.buffers@[i] == before[i]);
                }
            }
        }
        Ok(id)
    }
}


impl<T: Copy> Pipeline<T> {
    /// Records one convolution pass of `kernel` over the `image_size`
    /// samples held in `input_buffer`. The pass gets a fresh result buffer,
    /// sized for the cropped output, then a coefficient buffer and a
    /// parameter buffer `[width, kernel size]`; its dispatch has one
    /// invocation per output pixel. Returns the result buffer, which later
    /// passes may read (any number of them), and its dimensions.
    ///
    /// A kernel that does not fit strictly inside the image is refused
    /// first; then the input must be an input or result buffer of this
    /// pipeline holding at least `width * height` samples.
    pub fn chain(&mut self, input_buffer: BufferId, kernel: &Kernel<T>, image_size: (u32, u32)) -> (r: Result<(BufferId, (u32, u32)), ConvError>)
        requires
            old(self).wf(),
            kernel.wf(),
        ensures
            final(self).wf(),
            !kernel_fits(image_size.0, image_size.1, kernel.size) ==> r == Err::<(BufferId, (u32, u32)), ConvError>(
                ConvError::InvalidDimensions,
            ),
            r is Ok ==> r->Ok_0.1.0 == cropped(image_size.0, kernel.size) && r->Ok_0.1.1 == cropped(
                image_size.1,
                kernel.size,
            ),
            chain_error(old(self).buffers@, input_buffer, kernel.size, image_size) is Some ==> {
                &&& r == Err::<(BufferId, (u32, u32)), ConvError>(chain_error(old(self).buffers@, input_buffer, kernel.size, image_size)->0)
                &&& *final(self) == *old(self)
            },
            chain_error(old(self).buffers@, input_buffer, kernel.size, image_size) is None ==> {
                let n = old(self).buffers@.len() as int;
                let (id, dims) = r->Ok_0;
                let bufs = final(self).buffers@;
                &&& r is Ok
                &&& dims.0 == cropped(image_size.0, kernel.size)
                &&& dims.1 == cropped(image_size.1, kernel.size)
                &&& id.index == n
                &&& bufs.len() == n + 3
                &&& bufs.subrange(0, n) == old(self).buffers@
                &&& bufs[n].usage == BufferUsage::Result
                &&& bufs[n].byte_size == byte_len(dims.0, dims.1, 4)
                &&& bufs[n].init is Uninit
                &&& bufs[n + 1].usage == BufferUsage::Input
                &&& bufs[n + 1].byte_size == byte_len(kernel.size, kernel.size, 4)
                &&& bufs[n + 1].init is Samples
                &&& bufs[n + 1].init->Samples_0@ == kernel.data@
                &&& bufs[n + 2].usage == BufferUsage::Uniform
                &&& bufs[n + 2].byte_size == PARAMS_BYTES
                &&& bufs[n + 2].init is Words
                &&& bufs[n + 2].init->Words_0@ == seq![image_size.0, kernel.size]
                &&& final(self).commands@ == old(self).commands@.push(pass_command(input_buffer, n as int, dims))
            },
    {
        let (width, height) = image_size;
        let dims = match crop_dims(image_size, kernel.size) {
            Ok(d) => d,
            Err(e) => return Err(e),
        };
        let n = self.buffers.len();
        if input_buffer.index >= n {
            return Err(ConvError::InvalidBuffer);
        }
        let usage = self.buffers[input_buffer.index].usage;
        if !(usage == BufferUsage::Input || usage == BufferUsage::Result) {
            return Err(ConvError::InvalidBuffer);
        }
        assert(byte_len(width, height, 4) > 0) by (nonlinear_arith)
            requires width > 0, height > 0;
        match grid_bytes(width, height, 4) {
            Ok(needed) => {
                if self.buffers[input_buffer.index].byte_size < needed {
                    return Err(ConvError::InvalidBuffer);
                }
            },
            Err(_) => {
                return Err(ConvError::InvalidBuffer);
            },
        }
        assert(byte_len(kernel.size, kernel.size, 4) > 0) by (nonlinear_arith)
            requires kernel.size > 0;
        let kernel_bytes = match grid_bytes(kernel.size, kernel.size, 4) {
            Ok(b) => b,
            Err(e) => return Err(e),
        };
        proof {
            assert(byte_len(dims.0, dims.1, 4) <= byte_len(width, height, 4)) by (nonlinear_arith)
                requires dims.0 <= width, dims.1 <= height;
            assert(byte_len(width, height, 4) > 0) by (nonlinear_arith)
                requires width > 0, height > 0;
            assert(byte_len(dims.0, dims.1, 4) > 0) by (nonlinear_arith)
                requires dims.0 > 0, dims.1 > 0;
        }
        let result_bytes = match grid_bytes(dims.0, dims.1, 4) {
            Ok(b) => b,
            Err(e) => return Err(e),
        };
        let ghost before = self.buffers@;
        let coeffs = copy_samples(&kernel.data);
        let params: Vec<u32> = vec![width, kernel.size];
        self.buffers.push(BufferDesc { usage: BufferUsage::Result, byte_size: result_bytes, init: BufferInit::Uninit });
        self.buffers.push(BufferDesc { usage: BufferUsage::Input, byte_size: kernel_bytes, init: BufferInit::Samples(coeffs) });
        self.buffers.push(BufferDesc { usage: BufferUsage::Uniform, byte_size: PARAMS_BYTES, init: BufferInit::Words(params) });
        let count = self.buffers.len();
        assert(count == n + 3);
        let result = BufferId { index: n };
        let bind = BindSet {
            input: input_buffer,
            result,
            kernel: BufferId { index: n + 1 },
            params: BufferId { index: n + 2 },
        };
        let ghost cmds = self.commands@;
        self.commands.push(Command::Dispatch { bind, groups_x: dims.0, groups_y: dims.1 });
        proof {
            assert(self.buffers@.subrange(0, n as int) =~= before);
            assert(params@ =~= seq![width, kernel.size]);
            lemma_commands_ok_extend(before, self.buffers@, cmds);
            assert forall|i: int| 0 <= i < self.buffers@.len() implies #[trigger] self.buffers@[i].byte_size > 0 by {
                if i < before.len() {
                    assert(self.buffers@[i] == before[i]);
                }
            }
            assert(self.commands@ == cmds.push(pass_command(input_buffer, n as int, dims)));
            assert(command_ok(self.buffers@, pass_command(input_buffer, n as int, dims)));
            assert forall|i: int| 0 <= i < self.commands@.len() implies #[trigger] command_ok(self.buffers@, self.commands@[i]) by {
                if i < cmds.len() {
                    assert(self.commands@[i] == cmds[i]);
                }
            }
        }
        Ok((result, dims))
    }
}

/// Where one requested output lies in the staging buffer.
#[derive(Clone, Copy, Debug, PartialEq, Eq, Structural)]
pub struct Segment {
    pub offset: u64,
    pub size: u64,
    pub width: u32,
    pub height: u32,
}

/// A finished pipeline: every buffer and command to submit as one batch,
/// the staging buffer that the host reads back, and where each requested
/// output lies in it.
pub struct Submission<T> {
    pub buffers: Vec<BufferDesc<T>>,
    pub commands: Vec<Command>,
    pub staging: BufferId,
    pub segments: Vec<Segment>,
}

/// Bytes that one requested output `(buffer, dims, bytes per sample)` takes.
pub open spec fn request_bytes(o: (BufferId, (u32, u32), u32)) -> int {
    byte_len(o.1.0, o.1.1, o.2)
}

/// Bytes that all of `outs` take together.
pub open spec fn requests_total(outs: Seq<(BufferId, (u32, u32), u32)>) -> int
    decreases outs.len(),
{
    if outs.len() == 0 {
        0
    } else {
        requests_total(outs.drop_last()) + request_bytes(outs.last())
    }
}

/// Every requested output names a result buffer.
pub open spec fn handles_ok<T>(bufs: Seq<BufferDesc<T>>, outs: Seq<(BufferId, (u32, u32), u32)>) -> bool {
    forall|i: int| 0 <= i < outs.len() ==> has_usage(bufs, #[trigger] outs[i].0, BufferUsage::Result)
}

/// No requested output is empty, and their total is a non-zero `u64`.
pub open spec fn sizes_ok(outs: Seq<(BufferId, (u32, u32), u32)>) -> bool {
    &&& forall|i: int| 0 <= i < outs.len() ==> request_bytes(#[trigger] outs[i]) > 0
    &&& 0 < requests_total(outs) <= u64::MAX
}

/// Every requested output fits in the buffer it is copied from.
pub open spec fn fits_ok<T>(bufs: Seq<BufferDesc<T>>, outs: Seq<(BufferId, (u32, u32), u32)>) -> bool {
    forall|i: int| 0 <= i < outs.len() ==> request_bytes(#[trigger] outs[i]) <= bufs[outs[i].0.index as int].byte_size
}

/// The error, if any, that finishing a pipeline with `outs` reports.
pub open spec fn run_error<T>(bufs: Seq<BufferDesc<T>>, outs: Seq<(BufferId, (u32, u32), u32)>) -> Option<ConvError> {
    if !handles_ok(bufs, outs) {
        Some(ConvError::InvalidBuffer)
    } else if !sizes_ok(outs) {
        Some(ConvError::Allocation)
    } else if !fits_ok(bufs, outs) {
        Some(ConvError::InvalidBuffer)
    } else {
        None
    }
}

/// The place of the `i`-th requested output in the staging buffer.
pub open spec fn segment_of(outs: Seq<(BufferId, (u32, u32), u32)>, i: int) -> Segment {
    Segment {
        offset: requests_total(outs.take(i)) as u64,
        size: request_bytes(outs[i]) as u64,
        width: outs[i].1.0,
        height: outs[i].1.1,
    }
}

/// The copy that brings the `i`-th requested output into `staging`.
pub open spec fn copy_of(outs: Seq<(BufferId, (u32, u32), u32)>, i: int, staging: BufferId) -> Command {
    Command::Copy {
        src: outs[i].0,
        dst: staging,
        dst_offset: requests_total(outs.take(i)) as u64,
        size: request_bytes(outs[i]) as u64,
    }
}

proof fn lemma_total_step(outs: Seq<(BufferId, (u32, u32), u32)>, i: int)
    requires
        0 <= i < outs.len(),
    ensures
        requests_total(outs.take(i + 1)) == requests_total(outs.take(i)) + request_bytes(outs[i]),
{
    assert(outs.take(i + 1).drop_last() =~= outs.take(i));
}

proof fn lemma_total_nonneg(outs: Seq<(BufferId, (u32, u32), u32)>)
    ensures
        requests_total(outs) >= 0,
    decreases outs.len(),
{
    if outs.len() > 0 {
        lemma_total_nonneg(outs.drop_last());
        let o = outs.last();
        assert(byte_len(o.1.0, o.1.1, o.2) >= 0) by (nonlinear_arith);
    }
}

proof fn lemma_total_prefix(outs: Seq<(BufferId, (u32, u32), u32)>, i: int, j: int)
    requires
        0 <= i <= j <= outs.len(),
    ensures
        requests_total(outs.take(i)) <= requests_total(outs.take(j)),
    decreases j - i,
{
    if i < j {
        lemma_total_prefix(outs, i, j - 1);
        lemma_total_step(outs, j - 1);
        let o = outs[j - 1];
        assert(byte_len(o.1.0, o.1.1, o.2) >= 0) by (nonlinear_arith);
    }
}

/// Where the `i`-th requested output starts and ends within the total.
proof fn lemma_segment_bounds(outs: Seq<(BufferId, (u32, u32), u32)>, i: int)
    requires
        0 <= i < outs.len(),
    ensures
        0 <= requests_total(outs.take(i)),
        requests_total(outs.take(i + 1)) == requests_total(outs.take(i)) + request_bytes(outs[i]),
        requests_total(outs.take(i + 1)) <= requests_total(outs),
{
    lemma_total_step(outs, i);
    lemma_total_prefix(outs, i + 1, outs.len() as int);
    assert(outs.take(outs.len() as int) =~= outs);
    lemma_total_nonneg(outs.take(i));
}

impl<T: Copy> Pipeline<T> {
    /// Finishes the pipeline for the requested `(buffer, dims, bytes per
    /// sample)` outputs: adds one staging buffer sized for all of them and,
    /// for each in order, a copy into it right after the previous one.
    pub fn run(self, outputs: &Vec<(BufferId, (u32, u32), u32)>) -> (r: Result<Submission<T>, ConvError>)
        requires
            self.wf(),
        ensures
            run_error(self.buffers@, outputs@) is Some ==> r == Err::<Submission<T>, ConvError>(
                run_error(self.buffers@, outputs@)->0,
            ),
            run_error(self.buffers@, outputs@) is None ==> {
                let n = self.buffers@.len() as int;
                let m = self.commands@.len() as int;
                let sub = r->Ok_0;
                &&& r is Ok
                &&& sub.wf()
                &&& sub.staging.index == n
                &&& sub.buffers@.len() == n + 1
                &&& sub.buffers@.subrange(0, n) == self.buffers@
                &&& sub.buffers@[n].usage == BufferUsage::Staging
                &&& sub.buffers@[n].byte_size == requests_total(outputs@)
                &&& sub.buffers@[n].init is Uninit
                &&& sub.commands@.len() == m + outputs@.len()
                &&& sub.commands@.subrange(0, m) == self.commands@
                &&& forall|i: int| 0 <= i < outputs@.len() ==> sub.commands@[m + i] == copy_of(outputs@, i, sub.staging)
                &&& sub.segments@.len() == outputs@.len()
                &&& forall|i: int| 0 <= i < outputs@.len() ==> sub.segments@[i] == segment_of(outputs@, i)
            },
    {
        let ghost outs = outputs@;
        let ghost bufs = self.buffers@;
        let nout = outputs.len();
        let mut i: usize = 0;
        while i < nout
            invariant
                i <= nout == outs.len(),
                outs == outputs@,
                bufs == self.buffers@,
                forall|j: int| 0 <= j < i ==> has_usage(bufs, #[trigger] outs[j].0, BufferUsage::Result),
            decreases nout - i,
        {
            let id = outputs[i].0;
            if id.index >= self.buffers.len() || self.buffers[id.index].usage != BufferUsage::Result {
                return Err(ConvError::InvalidBuffer);
            }
            i = i + 1;
        }
        let mut segments: Vec<Segment> = Vec::with_capacity(nout);
        let mut total: u64 = 0;
        let mut i: usize = 0;
        while i < nout
            invariant
                i <= nout == outs.len(),
                outs == outputs@,
                total == requests_total(outs.take(i as int)),
                bufs == self.buffers@,
                handles_ok(bufs, outs),
                segments@.len() == i,
                forall|j: int| 0 <= j < i ==> request_bytes(#[trigger] outs[j]) > 0,
                forall|j: int| 0 <= j < i ==> #[trigger] segments@[j] == segment_of(outs, j),
            decreases nout - i,
        {
            let (_, dims, sample) = outputs[i];
            proof {
                lemma_segment_bounds(outs, i as int);
            }
            let size = match grid_bytes(dims.0, dims.1, sample) {
                Ok(b) => b,
                Err(_) => {
                    return Err(ConvError::Allocation);
                },
            };
            let next = match total.checked_add(size) {
                Some(t) => t,
                None => {
                    return Err(ConvError::Allocation);
                },
            };
            segments.push(Segment { offset: total, size, width: dims.0, height: dims.1 });
            total = next;
            i = i + 1;
        }
        proof {
            assert(outs.take(outs.len() as int) =~= outs);
        }
        if total == 0 {
            return Err(ConvError::Allocation);
        }
        let mut i: usize = 0;
        while i < nout
            invariant
                i <= nout == outs.len() == segments@.len(),
                outs == outputs@,
                bufs == self.buffers@,
                handles_ok(bufs, outs),
                forall|j: int| 0 <= j < nout ==> #[trigger] segments@[j] == segment_of(outs, j),
                forall|j: int| 0 <= j < nout ==> request_bytes(#[trigger] outs[j]) > 0,
                0 < requests_total(outs) <= u64::MAX,
                forall|j: int| 0 <= j < i ==> request_bytes(#[trigger] outs[j]) <= bufs[outs[j].0.index as int].byte_size,
            decreases nout - i,
        {
            let id = outputs[i].0;
            proof {
                lemma_segment_bounds(outs, i as int);
                assert(has_usage(bufs, outs[i as int].0, BufferUsage::Result));
            }
            if segments[i].size > self.buffers[id.index].byte_size {
                return Err(ConvError::InvalidBuffer);
            }
            i = i + 1;
        }
        let Pipeline { mut buffers, mut commands } = self;
        let n = buffers.len();
        let staging = BufferId { index: n };
        buffers.push(BufferDesc { usage: BufferUsage::Staging, byte_size: total, init: BufferInit::Uninit });
        proof {
            assert(buffers@.subrange(0, n as int) =~= bufs);
            lemma_commands_ok_extend(bufs, buffers@, commands@);
            assert forall|k: int| 0 <= k < buffers@.len() implies #[trigger] buffers@[k].byte_size > 0 by {
                if k < bufs.len() {
                    assert(buffers@[k] == bufs[k]);
                }
            }
        }
        let ghost cmds = commands@;
        let m = commands.len();
        let mut i: usize = 0;
        while i < nout
            invariant
                i <= nout == outs.len() == segments@.len(),
                outs == outputs@,
                buffers@.len() == n + 1,
                staging.index == n,
                buffers@.subrange(0, n as int) == bufs,
                buffers@[n as int].usage == BufferUsage::Staging,
                buffers@[n as int].byte_size == total,
                total == requests_total(outs),
                handles_ok(bufs, outs),
                fits_ok(bufs, outs),
                forall|j: int| 0 <= j < nout ==> request_bytes(#[trigger] outs[j]) > 0,
                forall|j: int| 0 <= j < nout ==> #[trigger] segments@[j] == segment_of(outs, j),
                forall|k: int| 0 <= k < buffers@.len() ==> #[trigger] buffers@[k].byte_size > 0,
                commands@.len() == m + i,
                commands@.subrange(0, m as int) == cmds,
                commands_ok(buffers@, commands@),
                forall|j: int| 0 <= j < i ==> commands@[m + j] == copy_of(outs, j, staging),
            decreases nout - i,
        {
            let seg = segments[i];
            let ghost before = commands@;
            proof {
                lemma_segment_bounds(outs, i as int);
                let src = outs[i as int].0;
                assert(has_usage(bufs, src, BufferUsage::Result));
                assert(buffers@[src.index as int] == bufs[src.index as int]);
                assert(request_bytes(outs[i as int]) <= bufs[src.index as int].byte_size);
                assert(segments@[i as int] == segment_of(outs, i as int));
                assert(0 <= requests_total(outs.take(i as int)) <= requests_total(outs.take(i as int + 1)) <= total);
                assert(request_bytes(outs[i as int]) >= 0);
                assert(has_usage(buffers@, src, BufferUsage::Result));
                assert(has_usage(buffers@, staging, BufferUsage::Staging));
                assert(request_bytes(outs[i as int]) <= buffers@[src.index as int].byte_size);
            }
            commands.push(Command::Copy { src: outputs[i].0, dst: staging, dst_offset: seg.offset, size: seg.size });
            proof {
                assert(commands@.subrange(0, m as int) =~= cmds);
                assert(command_ok(buffers@, copy_of(outs, i as int, staging)));
                assert forall|k: int| 0 <= k < commands@.len() implies #[trigger] command_ok(buffers@, commands@[k]) by {
                    if k < before.len() {
                        assert(commands@[k] == before[k]);
                    }
                }
                assert forall|j: int| 0 <= j < i + 1 implies commands@[m + j] == copy_of(outs, j, staging) by {
                    if j < i {
                        assert(commands@[m + j] == before[m + j]);
                    }
                }
            }
            i = i + 1;
        }
        let sub = Submission { buffers, commands, staging, segments };
        proof {
            assert forall|j: int| 0 <= j < sub.segments@.len() implies #[trigger] sub.segments@[j].offset + sub.segments@[j].size <= sub.buffers@[sub.staging.index as int].byte_size by {
                lemma_segment_bounds(outs, j);
            }
        }
        Ok(sub)
    }
}

impl<T> Submission<T> {
    /// The staging buffer exists, is a staging buffer, and holds every segment.
    pub open spec fn wf(&self) -> bool {
        &&& has_usage(self.buffers@, self.staging, BufferUsage::Staging)
        &&& forall|i: int| 0 <= i < self.segments@.len() ==> #[trigger] self.segments@[i].offset + self.segments@[i].size
            <= self.buffers@[self.staging.index as int].byte_size
    }

    /// Size in bytes of the staging buffer.
    pub open spec fn staging_bytes(&self) -> int {
        self.buffers@[self.staging.index as int].byte_size as int
    }
}

impl<T> Submission<T> {
    /// Splits the bytes read back from the staging buffer into the requested
    /// outputs, in the order they were requested. Bytes of any other length
    /// than the staging buffer's mean the readback failed.
    pub fn split(&self, bytes: &Vec<u8>) -> (r: Result<Vec<Vec<u8>>, ConvError>)
        requires
            self.wf(),
        ensures
            r is Ok <==> bytes@.len() == self.staging_bytes(),
            r is Err ==> r == Err::<Vec<Vec<u8>>, ConvError>(ConvError::ComputeExecution),
            r is Ok ==> {
                &&& r->Ok_0@.len() == self.segments@.len()
                &&& forall|i: int| 0 <= i < self.segments@.len() ==> #[trigger] r->Ok_0@[i]@ == bytes@.subrange(
                    self.segments@[i].offset as int,
                    self.segments@[i].offset + self.segments@[i].size,
                )
            },
    {
        if bytes.len() as u64 != self.buffers[self.staging.index].byte_size {
            return Err(ConvError::ComputeExecution);
        }
        let mut outputs: Vec<Vec<u8>> = Vec::with_capacity(self.segments.len());
        let mut i: usize = 0;
        while i < self.segments.len()
            invariant
                self.wf(),
                i <= self.segments@.len(),
                bytes@.len() == self.staging_bytes(),
                outputs@.len() == i,
                forall|j: int| 0 <= j < i ==> #[trigger] outputs@[j]@ == bytes@.subrange(
                    self.segments@[j].offset as int,
                    self.segments@[j].offset + self.segments@[j].size,
                ),
            decreases self.segments@.len() - i,
        {
            let seg = self.segments[i];
            let len: usize = bytes.len();
            assert(seg.offset + seg.size <= len);
            let start = seg.offset as usize;
            let end = start + seg.size as usize;
            let mut part: Vec<u8> = Vec::with_capacity(seg.size as usize);
            let mut k: usize = start;
            while k < end
                invariant
                    start <= k <= end <= bytes@.len(),
                    part@ == bytes@.subrange(start as int, k as int),
                decreases end - k,
            {
                part.push(bytes[k]);
                k = k + 1;
                assert(part@ =~= bytes@.subrange(start as int, k as int));
            }
            let ghost prev = outputs@;
            outputs.push(part);
            assert forall|j: int| 0 <= j < i + 1 implies #[trigger] outputs@[j]@ == bytes@.subrange(
                self.segments@[j].offset as int,
                self.segments@[j].offset + self.segments@[j].size,
            ) by {
                if j < i {
                    assert(outputs@[j] == prev[j]);
                }
            }
            i = i + 1;
        }
        Ok(outputs)
    }
}

/// `bytes` holds each of `words` as four bytes, least significant first.
pub open spec fn little_endian_words(words: Seq<u32>, bytes: Seq<u8>) -> bool {
    &&& bytes.len() == 4 * words.len()
    &&& forall|i: int| 0 <= i < words.len() ==> {
        &&& #[trigger] bytes[4 * i] == (words[i] % 256) as u8
        &&& bytes[4 * i + 1] == ((words[i] / 256) % 256) as u8
        &&& bytes[4 * i + 2] == ((words[i] / 65536) % 256) as u8
        &&& bytes[4 * i + 3] == (words[i] / 16777216) as u8
    }
}

/// `bytes` holds each of `words` as four bytes, most significant first.
pub open spec fn big_endian_words(words: Seq<u32>, bytes: Seq<u8>) -> bool {
    &&& bytes.len() == 4 * words.len()
    &&& forall|i: int| 0 <= i < words.len() ==> {
        &&& #[trigger] bytes[4 * i] == (words[i] / 16777216) as u8
        &&& bytes[4 * i + 1] == ((words[i] / 65536) % 256) as u8
        &&& bytes[4 * i + 2] == ((words[i] / 256) % 256) as u8
        &&& bytes[4 * i + 3] == (words[i] % 256) as u8
    }
}

/// Relies on bytemuck::cast_slice: a slice of `u32` seen as its bytes,
/// four for each word, every word in the machine's byte order (little or
/// big endian).
#[verifier::external_body]
fn cast_words(words: &[u32]) -> (r: Vec<u8>)
    ensures
        little_endian_words(words@, r@) || big_endian_words(words@, r@),
{
    bytemuck::cast_slice::<u32, u8>(words).to_vec()
}

/// The bytes of a parameter block such as `[image width, kernel size]`, as
/// the compute program reads them: each word in the machine's byte order.
pub fn words_bytes(words: &Vec<u32>) -> (r: Vec<u8>)
    ensures
        little_endian_words(words@, r@) || big_endian_words(words@, r@),
{
    cast_words(words.as_slice())
}

} // verus!
