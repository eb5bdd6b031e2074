use melody_visualizer::graphic::frames::RenderingState;
use melody_visualizer::graphic::history::{SpectrumHistory, SurfaceSize};
use melody_visualizer::graphic::spiral::{dim, paint, Texel};
use melody_visualizer::graphic::{
    bytes_of_word, rgb24_stride_for_width, word_from_bytes, ByteOrder, Graphic, GraphicBuffer,
    StrideError,
};

/// The order this machine lays a word's bytes out in.
fn native() -> ByteOrder {
    if u32::from_ne_bytes([1, 0, 0, 0]) == 1 {
        ByteOrder::Little
    } else {
        ByteOrder::Big
    }
}

#[test]
fn the_geometry_holds_across_widths() {
    for width in [1, 2, 3, 5, 7, 13, 101] {
        let height = 3;
        let buffer = GraphicBuffer::new(width, height);

        assert!(
            buffer.stride() >= 4 * width && buffer.stride() % 4 == 0,
            "Rgb24 is four bytes a pixel, on a four-byte-aligned row",
        );
        assert_eq!(buffer.data().len(), (buffer.stride() * height) as usize);
    }
}

#[test]
fn resize_sets_the_length_and_keeps_the_allocation_when_it_can() {
    let buffer = GraphicBuffer::new(64, 64);
    let allocation = buffer.data().as_ptr();

    let smaller = buffer.resize(32, 32);
    assert_eq!(smaller.data().len(), (smaller.stride() * 32) as usize);
    assert_eq!(
        smaller.data().as_ptr(),
        allocation,
        "shrinking reuses the allocation, which is what makes a window resize cheap",
    );

    let larger = smaller.resize(128, 128);
    assert_eq!(larger.data().len(), (larger.stride() * 128) as usize);
}

#[test]
fn a_zero_by_zero_buffer_has_no_pixels() {
    let buffer = GraphicBuffer::new(0, 0);
    assert_eq!(buffer.data().len(), 0);
    let graphic = Graphic::from_buffer(buffer);
    assert_eq!((graphic.width(), graphic.height()), (0, 0));
    let default = GraphicBuffer::default();
    assert_eq!((default.width(), default.height(), default.stride()), (0, 0, 0));
}

#[test]
fn the_stride_is_four_bytes_a_pixel_until_cairo_runs_out() {
    assert_eq!(rgb24_stride_for_width(1), Ok(4));
    assert_eq!(rgb24_stride_for_width(13), Ok(52));
    assert_eq!(rgb24_stride_for_width(67_108_862), Ok(268_435_448));
    assert_eq!(rgb24_stride_for_width(67_108_863), Err(StrideError::InvalidWidth));
    assert_eq!(
        rgb24_stride_for_width(i32::MAX as u32),
        Err(StrideError::InvalidWidth)
    );
}

#[test]
fn a_pixel_is_addressed_by_stride_not_by_width() {
    let (width, height) = (13, 3);
    let mut buffer = GraphicBuffer::new(width, height);
    let stride = buffer.stride() as usize;
    let last = (height as usize - 1) * stride + (width as usize - 1) * 4;
    buffer.data_mut()[last..last + 4].copy_from_slice(&0x00ff_ffffu32.to_ne_bytes());
    let graphic = Graphic::from_buffer(buffer);

    assert_eq!(graphic.pixel(width - 1, height - 1, native()), (255, 255, 255));
    assert_eq!(graphic.pixel(width - 2, height - 1, native()), (0, 0, 0));
    assert_eq!(graphic.pixel(width - 1, height - 2, native()), (0, 0, 0));
}

#[test]
fn a_pixel_reads_its_channels_from_the_native_word() {
    let mut buffer = GraphicBuffer::new(2, 1);
    buffer.data_mut()[4..8].copy_from_slice(&0x00ff_8000u32.to_ne_bytes());
    assert_eq!(buffer.pixel(1, 0, native()), (255, 128, 0));
    assert_eq!(buffer.pixel(0, 0, native()), (0, 0, 0));
    let graphic = Graphic::from_buffer(buffer);
    assert_eq!(graphic.into_buffer().width(), 2);
}

#[test]
fn a_word_is_laid_out_in_the_order_asked_for() {
    assert_eq!(bytes_of_word(0x0012_3456, ByteOrder::Little), [0x56, 0x34, 0x12, 0x00]);
    assert_eq!(bytes_of_word(0x0012_3456, ByteOrder::Big), [0x00, 0x12, 0x34, 0x56]);
    assert_eq!(bytes_of_word(0x0012_3456, native()), 0x0012_3456u32.to_ne_bytes());
    assert_eq!(word_from_bytes([0x56, 0x34, 0x12, 0x00], ByteOrder::Little), 0x0012_3456);
    assert_eq!(word_from_bytes([0x56, 0x34, 0x12, 0x00], ByteOrder::Big), 0x5634_1200);
}

#[test]
fn painting_in_the_other_order_reverses_each_pixel() {
    let map = [Texel { bin: 0, weight: 255 }];
    let mut pixels = vec![0; 4];
    paint(&mut pixels, &map, &[0x0012_3456], ByteOrder::Big);
    assert_eq!(pixels, [0x00, 0x12, 0x34, 0x56]);
    paint(&mut pixels, &map, &[0x0012_3456], ByteOrder::Little);
    assert_eq!(pixels, [0x56, 0x34, 0x12, 0x00]);
}

#[test]
fn dimming_keeps_both_ends_exact() {
    assert_eq!(dim(0x00ab_cdef, 255), 0x00ab_cdef);
    assert_eq!(dim(0xffab_cdef, 255), 0x00ab_cdef, "the unused byte stays clear");
    assert_eq!(dim(0x00ab_cdef, 0), 0);
    // Half weight: (channel * 128) >> 8.
    assert_eq!(dim(0x00ff_8040, 127), 0x007f_4020);
}

#[test]
fn painting_lights_each_pixel_from_its_bin() {
    let map = [
        Texel { bin: 1, weight: 255 },
        Texel { bin: 0, weight: 0 },
        Texel { bin: 0, weight: 127 },
    ];
    let lit = [0x00ff_8040, 0x0012_3456];
    let mut pixels = vec![0xaa; 12];
    paint(&mut pixels, &map, &lit, native());

    let word = |i: usize| u32::from_ne_bytes(pixels[4 * i..4 * i + 4].try_into().unwrap());
    assert_eq!(word(0), 0x0012_3456);
    assert_eq!(word(1), 0, "a weight of zero is black whatever the bin");
    assert_eq!(word(2), 0x007f_4020);
}

#[test]
fn painting_with_no_map_blackens_the_surface() {
    let mut pixels = vec![0xaa; 8];
    paint(&mut pixels, &[], &[], native());
    assert!(pixels.iter().all(|&byte| byte == 0));
}

#[test]
fn the_history_keeps_the_newest_spectra_and_recycles_the_oldest() {
    let mut history = SpectrumHistory::new();
    assert_eq!(history.update_spectrum(1, 2, true), None);
    assert_eq!(history.update_spectrum(2, 2, true), None);
    assert_eq!(history.update_spectrum(3, 2, true), Some(1));
    assert_eq!(history.spectra().iter().copied().collect::<Vec<_>>(), [3, 2]);

    // A spectrum from a grid that is gone is handed straight back.
    assert_eq!(history.update_spectrum(4, 2, false), None);
    assert_eq!(history.spectra().iter().copied().collect::<Vec<_>>(), [3, 2]);

    // A generator that draws less cuts the history down first.
    assert_eq!(history.update_spectrum(5, 1, true), Some(3));
    assert_eq!(history.spectra().iter().copied().collect::<Vec<_>>(), [5]);

    history.clear();
    assert!(history.spectra().is_empty());
}

#[test]
fn a_size_change_is_noticed_once() {
    let mut size = SurfaceSize::new();
    assert!(!size.update(0, 0), "the zero-by-zero start is no change");
    assert!(size.update(640, 480));
    assert!(!size.update(640, 480));
    assert!(size.update(640, 481));
    assert_eq!(size, SurfaceSize { width: 640, height: 481 });
}

#[test]
fn a_frame_is_skipped_while_the_last_one_renders() {
    let mut state = RenderingState::new();

    let buffer = state.start().expect("nothing is rendering yet");
    assert_eq!((buffer.width(), buffer.height()), (0, 0));
    assert!(state.start().is_none(), "the first frame is still rendering");

    state.finish(GraphicBuffer::new(3, 2));
    let next = state.start().expect("the frame came back");
    assert_eq!(
        (next.width(), next.height()),
        (3, 2),
        "the next frame is drawn into the buffer the last one handed back",
    );
}
