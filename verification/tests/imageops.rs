use npp::image::CudaImage;
use npp::imageops::{
    resize, status_result, Interpolation, Rect, ResizeCall, ResizeError, Size,
};

/// Stands in for the device routine on host memory: fills the destination
/// rectangle of `dst` from the source rectangle of `src`, nearest pixel first.
fn host_resize(src: &[u8], dst: &mut [u8], call: &ResizeCall) -> i32 {
    let (sr, dr) = (call.src_rect, call.dst_rect);
    if sr.width <= 0 || sr.height <= 0 || dr.width <= 0 || dr.height <= 0 {
        return -1;
    }
    for row in 0..dr.height as i64 {
        let from_row = sr.y as i64 + row * sr.height as i64 / dr.height as i64;
        for col in 0..dr.width as i64 {
            let from_col = sr.x as i64 + col * sr.width as i64 / dr.width as i64;
            for channel in 0..3i64 {
                let from = call.src_offset as i64
                    + from_row * call.src_step as i64
                    + from_col * 3
                    + channel;
                let to = call.dst_offset as i64
                    + (dr.y as i64 + row) * call.dst_step as i64
                    + (dr.x as i64 + col) * 3
                    + channel;
                dst[to as usize] = src[from as usize];
            }
        }
    }
    0
}

/// The same, for a source and a destination in one allocation.
fn host_resize_in_place(memory: &mut [u8], call: &ResizeCall) -> i32 {
    let before = memory.to_vec();
    host_resize(&before, memory, call)
}

/// Bytes that tell every position of an allocation from its neighbours.
fn pattern(len: usize) -> Vec<u8> {
    (0..len).map(|i| (i * 7 + i / 251) as u8).collect()
}

/// A whole image at the resolution of a six-megapixel camera.
fn decoded_source() -> CudaImage {
    CudaImage::new(3008, 2000).unwrap()
}

#[test]
fn test_resize1() {
    let cuda_src = decoded_source();
    let src_memory = pattern(cuda_src.buf_len());

    let mut cuda_dst = match cuda_src.channels() {
        3 => CudaImage::new(640, 480),
        _ => panic!("three channels expected"),
    }
    .unwrap();
    let mut dst_memory = vec![0u8; cuda_dst.buf_len()];

    resize(&cuda_src, &mut cuda_dst, |call| host_resize(&src_memory, &mut dst_memory, &call))
        .unwrap();

    assert_eq!(cuda_dst.channels(), cuda_src.channels());
    assert_eq!(cuda_dst.channel_stride(), cuda_src.channel_stride());
    assert_eq!(cuda_dst.width(), 640);
    assert_eq!(cuda_dst.height(), 480);
}

#[test]
fn test_resize2() {
    let cuda_src = decoded_source();
    let src_memory = pattern(cuda_src.buf_len());

    let mut cuda_dst = match cuda_src.channels() {
        3 => CudaImage::new(640, 480),
        _ => panic!("three channels expected"),
    }
    .unwrap();
    let mut dst_memory = vec![0u8; cuda_dst.buf_len()];

    let sub_cuda_src = cuda_src.sub_image(1722, 954, 510, 555).unwrap();

    resize(&sub_cuda_src, &mut cuda_dst, |call| host_resize(&src_memory, &mut dst_memory, &call))
        .unwrap();

    assert_eq!(cuda_dst.channels(), cuda_src.channels());
    assert_eq!(cuda_dst.channel_stride(), cuda_src.channel_stride());
    assert_eq!(cuda_dst.width(), 640);
    assert_eq!(cuda_dst.height(), 480);
}

#[test]
fn test_resize3() {
    let cuda_src = decoded_source();
    let mut memory = pattern(cuda_src.buf_len());

    let sub_cuda_src1 = cuda_src.sub_image(1722, 954, 510, 555).unwrap();
    let mut sub_cuda_src2 = cuda_src.sub_image(10, 10, 510, 555).unwrap();

    resize(&sub_cuda_src1, &mut sub_cuda_src2, |call| host_resize_in_place(&mut memory, &call))
        .unwrap();

    assert_eq!(sub_cuda_src2.channels(), cuda_src.channels());
    assert_eq!(sub_cuda_src2.channel_stride(), cuda_src.channel_stride());
    assert_eq!(sub_cuda_src2.width(), 510);
    assert_eq!(sub_cuda_src2.height(), 555);
}

#[test]
fn resize_leaves_destination_view_as_it_was() {
    let src = CudaImage::new(31, 17).unwrap();
    let parent = CudaImage::new(64, 48).unwrap();
    let mut dst = parent.sub_image(5, 7, 20, 30).unwrap();
    let before = dst;

    assert_eq!(resize(&src, &mut dst, |_call| 0), Ok(()));
    assert_eq!(dst, before);
    assert_eq!((dst.width(), dst.height()), (20, 30));

    assert_eq!(resize(&src, &mut dst, |_call| 9), Err(ResizeError::Unknown));
    assert_eq!(dst, before);
}

#[test]
fn resize_hands_the_routine_the_planned_call_once() {
    let src = CudaImage::new(8, 4).unwrap();
    let mut dst = CudaImage::new(4, 2).unwrap();
    let expected = ResizeCall::plan(&src, &dst);
    let mut seen = Vec::new();
    let result = resize(&src, &mut dst, |call| {
        seen.push(call);
        0
    });
    assert_eq!(result, Ok(()));
    assert_eq!(seen, vec![expected]);
}

#[test]
fn plan_of_two_whole_images() {
    let src = CudaImage::new(3008, 2000).unwrap();
    let dst = CudaImage::new(640, 480).unwrap();
    let call = ResizeCall::plan(&src, &dst);
    assert_eq!(
        call,
        ResizeCall {
            src_offset: 0,
            src_step: 9024,
            src_size: Size { width: 3008, height: 2000 },
            src_rect: Rect { x: 0, y: 0, width: 3008, height: 2000 },
            dst_offset: 0,
            dst_step: 1920,
            dst_size: Size { width: 640, height: 480 },
            dst_rect: Rect { x: 0, y: 0, width: 640, height: 480 },
            interpolation: Interpolation::Linear,
        }
    );
}

#[test]
fn plan_of_two_windows() {
    let parent = CudaImage::new(3008, 2000).unwrap();
    let src = parent.sub_image(1722, 954, 510, 555).unwrap();
    let dst = parent.sub_image(10, 10, 510, 555).unwrap();
    let call = ResizeCall::plan(&src, &dst);
    assert_eq!(call.src_offset, 954 * 9024 + 1722 * 3);
    assert_eq!(call.src_offset, 8_614_062);
    assert_eq!(call.dst_offset, 90_270);
    assert_eq!(call.src_step, 9024);
    assert_eq!(call.dst_step, 9024);
    assert_eq!(call.src_size, Size { width: 510, height: 555 });
    assert_eq!(call.dst_size, Size { width: 510, height: 555 });
    assert_eq!(call.src_rect, Rect { x: 0, y: 0, width: 510, height: 555 });
    assert_eq!(call.dst_rect, Rect { x: 0, y: 0, width: 510, height: 555 });
    assert_eq!(call.interpolation, Interpolation::Linear);
}

#[test]
fn plan_keeps_source_and_destination_apart() {
    let src = CudaImage::with_layout(3, 2, 16, 5, 64).unwrap();
    let dst = CudaImage::with_layout(7, 9, 32, 11, 512).unwrap();
    let call = ResizeCall::plan(&src, &dst);
    assert_eq!((call.src_offset, call.src_step), (5, 16));
    assert_eq!((call.dst_offset, call.dst_step), (11, 32));
    assert_eq!(call.src_size, Size { width: 3, height: 2 });
    assert_eq!(call.dst_size, Size { width: 7, height: 9 });
}

#[test]
fn plan_at_the_largest_numbers() {
    let widest = CudaImage::new(715_827_882, 1).unwrap();
    let tallest = CudaImage::new(1, 2_147_483_647).unwrap();
    let call = ResizeCall::plan(&widest, &tallest);
    assert_eq!(call.src_step, 2_147_483_646);
    assert_eq!(call.src_size, Size { width: 715_827_882, height: 1 });
    assert_eq!(call.dst_step, 3);
    assert_eq!(call.dst_size, Size { width: 1, height: 2_147_483_647 });
}

#[test]
fn status_zero_is_success() {
    assert_eq!(status_result(0), Ok(()));
}

#[test]
fn every_other_status_is_the_same_failure() {
    for status in [1, -1, 2, -7, 999, i32::MAX, i32::MIN] {
        assert_eq!(status_result(status), Err(ResizeError::Unknown));
    }
}

#[test]
fn resize_reports_the_routines_status() {
    let src = CudaImage::new(8, 4).unwrap();
    let mut dst = CudaImage::new(4, 2).unwrap();
    assert_eq!(resize(&src, &mut dst, |_call| 0), Ok(()));
    assert_eq!(resize(&src, &mut dst, |_call| -7), Err(ResizeError::Unknown));
    assert_eq!(resize(&src, &mut dst, |_call| 1), Err(ResizeError::Unknown));
}

#[test]
fn equal_dimensions_fill_the_destination() {
    let src = CudaImage::new(40, 30).unwrap();
    let mut dst = CudaImage::new(40, 30).unwrap();
    let src_memory = pattern(src.buf_len());
    let mut dst_memory = vec![0u8; dst.buf_len()];

    let result = resize(&src, &mut dst, |call| host_resize(&src_memory, &mut dst_memory, &call));

    assert_eq!(result, Ok(()));
    assert_eq!(dst_memory, src_memory);
    assert_eq!(dst.channels(), src.channels());
    assert_eq!(dst.channel_stride(), src.channel_stride());
    assert_eq!((dst.width(), dst.height()), (40, 30));
}

/// Whether byte `offset` of an allocation belongs to a pixel of `view`.
fn in_view(view: &CudaImage, offset: usize) -> bool {
    if offset < view.img_index() {
        return false;
    }
    let within = offset - view.img_index();
    let row = within / view.height_stride();
    let col = within % view.height_stride();
    row < view.height() as usize && col < 3 * view.width() as usize
}

#[test]
fn window_as_source_changes_only_the_destination_view() {
    let parent = CudaImage::new(50, 40).unwrap();
    let src = parent.sub_image(20, 10, 16, 12).unwrap();
    let src_memory = pattern(parent.buf_len());

    let frame = CudaImage::new(32, 24).unwrap();
    let mut dst = frame.sub_image(4, 6, 8, 5).unwrap();
    let before = vec![0xEEu8; frame.buf_len()];
    let mut dst_memory = before.clone();

    let result = resize(&src, &mut dst, |call| host_resize(&src_memory, &mut dst_memory, &call));
    assert_eq!(result, Ok(()));

    let mut changed = 0;
    for offset in 0..dst_memory.len() {
        if in_view(&dst, offset) {
            if dst_memory[offset] != before[offset] {
                changed += 1;
            }
        } else {
            assert_eq!(dst_memory[offset], before[offset], "byte {offset} lies outside");
        }
    }
    assert!(changed > 0);
    assert_eq!(src_memory, pattern(parent.buf_len()));
}

#[test]
fn window_as_destination_spares_a_disjoint_window() {
    let parent = CudaImage::new(64, 48).unwrap();
    let src = parent.sub_image(40, 30, 12, 9).unwrap();
    let mut dst = parent.sub_image(2, 3, 20, 15).unwrap();
    let sibling = parent.sub_image(22, 3, 20, 15).unwrap();
    let below = parent.sub_image(2, 18, 20, 15).unwrap();
    let before = pattern(parent.buf_len());
    let mut memory = before.clone();

    let result = resize(&src, &mut dst, |call| host_resize_in_place(&mut memory, &call));
    assert_eq!(result, Ok(()));

    let mut changed = 0;
    for offset in 0..memory.len() {
        if in_view(&sibling, offset) || in_view(&below, offset) || in_view(&src, offset) {
            assert!(!in_view(&dst, offset));
            assert_eq!(memory[offset], before[offset], "byte {offset} is a neighbour's");
        } else if memory[offset] != before[offset] {
            assert!(in_view(&dst, offset));
            changed += 1;
        }
    }
    assert!(changed > 0);
}
