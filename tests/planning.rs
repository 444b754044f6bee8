use image_convolution::convolution;
use image_convolution::geometry::{crop_dims, grid_bytes};
use image_convolution::pipeline::{
    words_bytes, BindSet, BindingKind, BufferId, BufferInit, BufferUsage, Command, Segment,
};
use image_convolution::{BorderType, ConvError, Image, Kernel, Pipeline};

fn box_kernel(size: u32) -> Kernel<f32> {
    let n = (size * size) as usize;
    Kernel { data: vec![1.0 / n as f32; n], size }
}

#[test]
fn crop_shrinks_by_kernel_size_minus_one() {
    assert_eq!(crop_dims((5, 5), 3), Ok((3, 3)));
    assert_eq!(crop_dims((640, 480), 7), Ok((634, 474)));
    assert_eq!(crop_dims((10, 4), 1), Ok((10, 4)));
}

#[test]
fn crop_refuses_kernel_not_smaller_than_image() {
    assert_eq!(crop_dims((5, 5), 5), Err(ConvError::InvalidDimensions));
    assert_eq!(crop_dims((5, 9), 7), Err(ConvError::InvalidDimensions));
    assert_eq!(crop_dims((9, 5), 7), Err(ConvError::InvalidDimensions));
    assert_eq!(crop_dims((9, 9), 0), Err(ConvError::InvalidDimensions));
}

#[test]
fn grid_bytes_counts_four_byte_samples() {
    assert_eq!(grid_bytes(3, 3, 4), Ok(36));
    assert_eq!(grid_bytes(0, 3, 4), Err(ConvError::Allocation));
    assert_eq!(grid_bytes(u32::MAX, u32::MAX, u32::MAX), Err(ConvError::Allocation));
}

#[test]
fn image_new_fills_every_pixel() {
    let image = Image::new(4, 3, 2.5f32);
    assert_eq!(image.size(), 12);
    assert_eq!(image.data.len(), 12);
    assert!(image.data.iter().all(|v| *v == 2.5));
}

#[test]
fn image_pixel_is_row_major() {
    let image = Image { data: (0..6).collect::<Vec<u32>>(), width: 3, height: 2 };
    assert_eq!(*image.pixel(0, 0), 0);
    assert_eq!(*image.pixel(2, 0), 2);
    assert_eq!(*image.pixel(1, 1), 4);
}

#[test]
fn kernel_coeff_is_row_major() {
    let kernel = Kernel { data: vec![-1, 0, 1, -2, 0, 2, -1, 0, 1], size: 3 };
    assert_eq!(*kernel.coeff(2, 1), 2);
    assert_eq!(*kernel.coeff(0, 2), -1);
}

#[test]
fn border_types_are_distinct() {
    assert_ne!(BorderType::Crop, BorderType::Mirror);
    assert_ne!(BorderType::Mirror, BorderType::Zero);
}

#[test]
fn bind_set_entries_follow_slot_order() {
    let bind = BindSet {
        input: BufferId { index: 0 },
        result: BufferId { index: 1 },
        kernel: BufferId { index: 2 },
        params: BufferId { index: 3 },
    };
    let entries = bind.entries();
    assert_eq!(entries.len(), 4);
    for (slot, entry) in entries.iter().enumerate() {
        assert_eq!(entry.slot as usize, slot);
        assert_eq!(entry.buffer.index, slot);
    }
    assert_eq!(entries[0].kind, BindingKind::ReadOnlyStorage);
    assert_eq!(entries[1].kind, BindingKind::Storage);
    assert_eq!(entries[2].kind, BindingKind::ReadOnlyStorage);
    assert_eq!(entries[3].kind, BindingKind::Uniform);
    assert_eq!(entries[3].min_size, 8);
}

#[test]
fn words_bytes_gives_each_word_in_machine_order() {
    let bytes = words_bytes(&vec![5u32, 3u32]);
    let mut expected = 5u32.to_ne_bytes().to_vec();
    expected.extend_from_slice(&3u32.to_ne_bytes());
    assert_eq!(bytes, expected);
}

#[test]
fn box_blur_five_by_five_plans_three_by_three_output() {
    let image = Image::new(5, 5, 1.0f32);
    let kernel = box_kernel(3);
    let sub = convolution::run(&image, &kernel).unwrap();
    assert_eq!(sub.buffers.len(), 5);
    assert_eq!(sub.buffers[0].usage, BufferUsage::Input);
    assert_eq!(sub.buffers[0].byte_size, 100);
    assert_eq!(sub.buffers[1].usage, BufferUsage::Result);
    assert_eq!(sub.buffers[1].byte_size, 36);
    assert_eq!(sub.buffers[2].byte_size, 36);
    assert_eq!(sub.buffers[3].usage, BufferUsage::Uniform);
    match &sub.buffers[3].init {
        BufferInit::Words(w) => assert_eq!(w, &vec![5, 3]),
        _ => panic!("parameters are words"),
    }
    assert_eq!(sub.staging.index, 4);
    assert_eq!(sub.buffers[4].usage, BufferUsage::Staging);
    assert_eq!(sub.segments, vec![Segment { offset: 0, size: 36, width: 3, height: 3 }]);
    assert_eq!(sub.commands.len(), 2);
    match sub.commands[0] {
        Command::Dispatch { bind, groups_x, groups_y } => {
            assert_eq!((groups_x, groups_y), (3, 3));
            assert_eq!(bind.input.index, 0);
            assert_eq!(bind.result.index, 1);
        }
        _ => panic!("first command dispatches"),
    }
    assert_eq!(
        sub.commands[1],
        Command::Copy { src: BufferId { index: 1 }, dst: BufferId { index: 4 }, dst_offset: 0, size: 36 }
    );
}

#[test]
fn unit_kernel_keeps_dimensions() {
    let image = Image::new(7, 4, 3.0f32);
    let kernel = Kernel { data: vec![1.0f32], size: 1 };
    let sub = convolution::run(&image, &kernel).unwrap();
    assert_eq!(sub.segments[0].width, 7);
    assert_eq!(sub.segments[0].height, 4);
    assert_eq!(sub.segments[0].size, sub.buffers[0].byte_size);
}

#[test]
fn single_pass_refuses_kernel_as_large_as_image() {
    let image = Image::new(3, 8, 0.0f32);
    assert_eq!(convolution::run(&image, &box_kernel(3)).err(), Some(ConvError::InvalidDimensions));
    let image = Image::new(8, 3, 0.0f32);
    assert_eq!(convolution::run(&image, &box_kernel(5)).err(), Some(ConvError::InvalidDimensions));
}

#[test]
fn chain_fans_out_from_one_intermediate() {
    let image = Image::new(10, 8, 1.0f32);
    let mut pipeline = Pipeline::new();
    let input = pipeline.upload(&image).unwrap();
    let (smoothed, smoothed_size) = pipeline.chain(input, &box_kernel(3), (10, 8)).unwrap();
    assert_eq!(smoothed_size, (8, 6));
    let (gx, gx_size) = pipeline.chain(smoothed, &box_kernel(3), smoothed_size).unwrap();
    let (gy, gy_size) = pipeline.chain(smoothed, &box_kernel(3), smoothed_size).unwrap();
    assert_eq!(gx_size, (6, 4));
    assert_eq!(gy_size, (6, 4));
    assert_ne!(gx, gy);
    assert_eq!(pipeline.commands.len(), 3);
    for c in &pipeline.commands[1..] {
        match c {
            Command::Dispatch { bind, .. } => assert_eq!(bind.input, smoothed),
            _ => panic!("chained passes dispatch"),
        }
    }
    let single = convolution::run(&Image::new(8, 6, 1.0f32), &box_kernel(3)).unwrap();
    assert_eq!(single.segments[0].width, gx_size.0);
    assert_eq!(single.segments[0].height, gx_size.1);

    let sub = pipeline.run(&vec![(gx, gx_size, 4), (gy, gy_size, 4)]).unwrap();
    assert_eq!(
        sub.segments,
        vec![
            Segment { offset: 0, size: 96, width: 6, height: 4 },
            Segment { offset: 96, size: 96, width: 6, height: 4 },
        ]
    );
    assert_eq!(sub.buffers[sub.staging.index].byte_size, 192);
    assert_eq!(sub.commands.len(), 5);
    assert_eq!(
        sub.commands[4],
        Command::Copy { src: gy, dst: sub.staging, dst_offset: 96, size: 96 }
    );
}

#[test]
fn chain_refuses_unknown_or_mismatched_buffer() {
    let image = Image::new(10, 8, 1.0f32);
    let mut pipeline = Pipeline::new();
    let input = pipeline.upload(&image).unwrap();
    assert_eq!(
        pipeline.chain(BufferId { index: 9 }, &box_kernel(3), (10, 8)),
        Err(ConvError::InvalidBuffer)
    );
    assert_eq!(pipeline.chain(input, &box_kernel(3), (10, 9)), Err(ConvError::InvalidBuffer));
    assert_eq!(
        pipeline.chain(BufferId { index: 9 }, &box_kernel(11), (10, 8)),
        Err(ConvError::InvalidDimensions)
    );
    assert_eq!(pipeline.chain(input, &box_kernel(9), (10, 8)), Err(ConvError::InvalidDimensions));
    assert_eq!(pipeline.buffers.len(), 1);
    assert!(pipeline.commands.is_empty());
}

#[test]
fn upload_refuses_empty_image() {
    let image: Image<f32> = Image { data: Vec::new(), width: 0, height: 4 };
    let mut pipeline = Pipeline::new();
    assert_eq!(pipeline.upload(&image), Err(ConvError::Allocation));
}

fn one_pass() -> (Pipeline<f32>, BufferId, BufferId) {
    let image = Image::new(6, 6, 1.0f32);
    let mut pipeline = Pipeline::new();
    let input = pipeline.upload(&image).unwrap();
    let (out, size) = pipeline.chain(input, &box_kernel(3), (6, 6)).unwrap();
    assert_eq!(size, (4, 4));
    (pipeline, input, out)
}

#[test]
fn run_refuses_input_buffer_as_output() {
    let (pipeline, input, _) = one_pass();
    assert_eq!(pipeline.run(&vec![(input, (6, 6), 4)]).err(), Some(ConvError::InvalidBuffer));
}

#[test]
fn run_refuses_empty_request_list() {
    let (pipeline, _, _) = one_pass();
    assert_eq!(pipeline.run(&Vec::new()).err(), Some(ConvError::Allocation));
}

#[test]
fn run_refuses_empty_output() {
    let (pipeline, _, out) = one_pass();
    assert_eq!(pipeline.run(&vec![(out, (0, 4), 4)]).err(), Some(ConvError::Allocation));
}

#[test]
fn run_refuses_output_larger_than_its_buffer() {
    let (pipeline, _, out) = one_pass();
    assert_eq!(pipeline.run(&vec![(out, (5, 4), 4)]).err(), Some(ConvError::InvalidBuffer));
}

#[test]
fn split_cuts_readback_in_request_order() {
    let (mut pipeline, _, out) = one_pass();
    let (second, second_size) = pipeline.chain(out, &box_kernel(3), (4, 4)).unwrap();
    assert_eq!(second_size, (2, 2));
    let sub = pipeline.run(&vec![(second, second_size, 4), (out, (4, 4), 4)]).unwrap();
    let bytes: Vec<u8> = (0..80u8).collect();
    let parts = sub.split(&bytes).unwrap();
    assert_eq!(parts.len(), 2);
    assert_eq!(parts[0], (0..16u8).collect::<Vec<u8>>());
    assert_eq!(parts[1], (16..80u8).collect::<Vec<u8>>());
}

#[test]
fn split_refuses_short_readback() {
    let (pipeline, _, out) = one_pass();
    let sub = pipeline.run(&vec![(out, (4, 4), 4)]).unwrap();
    assert_eq!(sub.split(&vec![0u8; 63]), Err(ConvError::ComputeExecution));
    assert_eq!(sub.split(&vec![7u8; 64]).unwrap(), vec![vec![7u8; 64]]);
}

#[test]
fn crop_holds_for_odd_kernel_sizes() {
    for k in [1u32, 3, 5, 7, 9, 11] {
        assert_eq!(crop_dims((64, 40), k), Ok((64 - (k - 1), 40 - (k - 1))));
        let mut pipeline = Pipeline::new();
        let input = pipeline.upload(&Image::new(64, 40, 0.5f32)).unwrap();
        let (_, dims) = pipeline.chain(input, &box_kernel(k), (64, 40)).unwrap();
        assert_eq!(dims, (64 - (k - 1), 40 - (k - 1)));
    }
}

#[test]
fn chain_reads_part_of_a_larger_buffer() {
    let image = Image::new(10, 8, 1.0f32);
    let mut pipeline = Pipeline::new();
    let input = pipeline.upload(&image).unwrap();
    assert_eq!(pipeline.chain(input, &box_kernel(3), (5, 8)).map(|(_, d)| d), Ok((3, 6)));
    assert_eq!(pipeline.buffers[1].byte_size, 72);
}
