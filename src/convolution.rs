use vstd::prelude::*;

use crate::error::ConvError;
use crate::geometry::{byte_len, crop_dims, cropped, kernel_fits};
use crate::image::Image;
use crate::kernels::Kernel;
use crate::pipeline::{
    chain_error, is_source, BufferDesc, pass_command, requests_total, segment_of, copy_of, BufferId, BufferUsage, Pipeline, Submission,
};

verus! {

/// The error, if any, that planning one pass of a `kernel_size` kernel
/// over a `width` x `height` image reports.
pub open spec fn single_pass_error(width: u32, height: u32, kernel_size: u32) -> Option<ConvError> {
    if !kernel_fits(width, height, kernel_size) {
        Some(ConvError::InvalidDimensions)
    } else if byte_len(width, height, 4) > u64::MAX || byte_len(kernel_size, kernel_size, 4) > u64::MAX {
        Some(ConvError::Allocation)
    } else {
        None
    }
}

/// The one output request of a single pass whose output is `dims`.
pub open spec fn single_request(dims: (u32, u32)) -> Seq<(BufferId, (u32, u32), u32)> {
    seq![(BufferId { index: 1 }, dims, 4u32)]
}

/// Plans one self-contained convolution of `image` by `kernel`: upload the
/// image, run one pass with the crop policy, and copy its result to a
/// staging buffer for readback. A kernel that does not fit strictly inside
/// the image is refused before anything is allocated.
pub fn run<T: Copy>(image: &Image<T>, kernel: &Kernel<T>) -> (r: Result<Submission<T>, ConvError>)
    requires
        image.wf(),
        kernel.wf(),
    ensures
        single_pass_error(image.width, image.height, kernel.size) is Some ==> r == Err::<
            Submission<T>,
            ConvError,
        >(single_pass_error(image.width, image.height, kernel.size)->0),
        single_pass_error(image.width, image.height, kernel.size) is None ==> {
            let dims = (cropped(image.width, kernel.size) as u32, cropped(image.height, kernel.size) as u32);
            let sub = r->Ok_0;
            &&& r is Ok
            &&& sub.wf()
            &&& sub.buffers@.len() == 5
            &&& sub.buffers@[0].usage == BufferUsage::Input
            &&& sub.buffers@[0].byte_size == byte_len(image.width, image.height, 4)
            &&& sub.buffers@[0].init is Samples
            &&& sub.buffers@[0].init->Samples_0@ == image.data@
            &&& sub.buffers@[1].usage == BufferUsage::Result
            &&& sub.buffers@[1].byte_size == byte_len(dims.0, dims.1, 4)
            &&& sub.buffers@[1].init is Uninit
            &&& sub.buffers@[2].usage == BufferUsage::Input
            &&& sub.buffers@[2].byte_size == byte_len(kernel.size, kernel.size, 4)
            &&& sub.buffers@[2].init is Samples
            &&& sub.buffers@[2].init->Samples_0@ == kernel.data@
            &&& sub.buffers@[3].usage == BufferUsage::Uniform
            &&& sub.buffers@[3].byte_size == crate::pipeline::PARAMS_BYTES
            &&& sub.buffers@[3].init is Words
            &&& sub.buffers@[3].init->Words_0@ == seq![image.width, kernel.size]
            &&& sub.staging.index == 4
            &&& sub.buffers@[4].usage == BufferUsage::Staging
            &&& sub.buffers@[4].byte_size == byte_len(dims.0, dims.1, 4)
            &&& sub.buffers@[4].init is Uninit
            &&& sub.commands@ == seq![
                pass_command(BufferId { index: 0 }, 1, dims),
                copy_of(single_request(dims), 0, sub.staging),
            ]
            &&& sub.segments@ == seq![segment_of(single_request(dims), 0)]
        },
{
    let dims = match crop_dims((image.width, image.height), kernel.size) {
        Ok(d) => d,
        Err(e) => return Err(e),
    };
    assert(byte_len(image.width, image.height, 4) > 0) by (nonlinear_arith)
        requires image.width > 0, image.height > 0;
    let mut pipeline: Pipeline<T> = Pipeline::new();
    let input = match pipeline.upload(image) {
        Ok(id) => id,
        Err(e) => return Err(e),
    };
    let (result, out_dims) = match pipeline.chain(input, kernel, (image.width, image.height)) {
        Ok(p) => p,
        Err(e) => return Err(e),
    };
    let ghost bufs = pipeline.buffers@;
    let ghost cmds = pipeline.commands@;
    let outputs: Vec<(BufferId, (u32, u32), u32)> = vec![(result, out_dims, 4)];
    proof {
        let outs = outputs@;
        assert(outs =~= single_request(dims));
        assert(outs.drop_last() =~= Seq::<(BufferId, (u32, u32), u32)>::empty());
        assert(requests_total(outs) == byte_len(dims.0, dims.1, 4));
        assert(outs.take(0) =~= Seq::<(BufferId, (u32, u32), u32)>::empty());
        assert(byte_len(dims.0, dims.1, 4) > 0) by (nonlinear_arith)
            requires dims.0 > 0, dims.1 > 0;
    }
    let sub = pipeline.run(&outputs);
    proof {
        let s = sub->Ok_0;
        assert(s.buffers@[0] == s.buffers@.subrange(0, 4)[0]);
        assert(s.buffers@[1] == s.buffers@.subrange(0, 4)[1]);
        assert(s.buffers@[2] == s.buffers@.subrange(0, 4)[2]);
        assert(s.buffers@[3] == s.buffers@.subrange(0, 4)[3]);
        assert(bufs[0] == bufs.subrange(0, 1)[0]);
        assert(s.commands@[0] == s.commands@.subrange(0, 1)[0]);
        assert(s.commands@ =~= seq![
            pass_command(BufferId { index: 0 }, 1, dims),
            copy_of(single_request(dims), 0, s.staging),
        ]);
        assert(s.segments@ =~= seq![segment_of(single_request(dims), 0)]);
    }
    sub
}

/// A 1 x 1 kernel keeps the image's dimensions: on any image of at least
/// 2 x 2 pixels whose samples fit in memory the pass is planned, and its
/// output has exactly the input's width and height.
pub proof fn lemma_unit_kernel_keeps_dims(width: u32, height: u32)
    requires
        width > 1,
        height > 1,
        byte_len(width, height, 4) <= u64::MAX,
    ensures
        single_pass_error(width, height, 1) is None,
        cropped(width, 1) == width,
        cropped(height, 1) == height,
{
}

/// A kernel as wide or as tall as the image, or wider or taller, is refused
/// with `InvalidDimensions`, both as a single pass and as a chained pass,
/// whatever buffer the chained pass names.
pub proof fn lemma_oversized_kernel_refused<T>(bufs: Seq<BufferDesc<T>>, input: BufferId, width: u32, height: u32, kernel_size: u32)
    requires
        kernel_size >= width || kernel_size >= height,
    ensures
        single_pass_error(width, height, kernel_size) == Some(ConvError::InvalidDimensions),
        chain_error(bufs, input, kernel_size, (width, height)) == Some(ConvError::InvalidDimensions),
{
}

/// Fan-out: recording more passes never changes the outcome of chaining
/// from a buffer recorded earlier, so one intermediate can feed any number
/// of passes; and each such pass is accepted or refused exactly as a single
/// pass over a materialized image of that size, with the same output size.
pub proof fn lemma_fan_out_matches_single_pass<T>(
    bufs: Seq<BufferDesc<T>>,
    more: Seq<BufferDesc<T>>,
    input: BufferId,
    width: u32,
    height: u32,
    kernel_size: u32,
)
    requires
        more.len() >= bufs.len(),
        more.subrange(0, bufs.len() as int) == bufs,
        is_source(bufs, input),
        bufs[input.index as int].byte_size >= byte_len(width, height, 4),
    ensures
        chain_error(more, input, kernel_size, (width, height)) == chain_error(bufs, input, kernel_size, (width, height)),
        chain_error(bufs, input, kernel_size, (width, height)) == single_pass_error(width, height, kernel_size),
{
    assert(more[input.index as int] == more.subrange(0, bufs.len() as int)[input.index as int]);
}

} // verus!
