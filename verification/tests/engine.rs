use sic::buffer::ImageBuffer;
use sic::engine::{apply_operation, run_pipeline};
use sic::errors::SicImageEngineError;
use sic::image::{Frame, SicImage};
use sic::operations::speech::Speech;
use sic::parser::{parse_image_operations, Operation};
use sic::wrapper::ImageFromPath;

fn buf(width: u32, height: u32, data: Vec<u8>) -> ImageBuffer {
    assert_eq!(data.len(), 4 * width as usize * height as usize);
    ImageBuffer { width, height, data }
}

fn solid(width: u32, height: u32, rgba: [u8; 4]) -> ImageBuffer {
    let mut data = Vec::new();
    for _ in 0..(width as usize * height as usize) {
        data.extend_from_slice(&rgba);
    }
    buf(width, height, data)
}

#[test]
fn test_flip_horizontal_swaps_columns() {
    let mut img = SicImage::Static(buf(2, 1, vec![1, 2, 3, 4, 5, 6, 7, 8]));
    apply_operation(&Operation::FlipHorizontal, &mut img).unwrap();
    match img {
        SicImage::Static(b) => assert_eq!(vec![5, 6, 7, 8, 1, 2, 3, 4], b.data),
        SicImage::Animated(_) => panic!("image representation changed"),
    }
}

#[test]
fn test_flip_vertical_swaps_rows() {
    let mut img = SicImage::Static(buf(1, 2, vec![1, 2, 3, 4, 5, 6, 7, 8]));
    apply_operation(&Operation::FlipVertical, &mut img).unwrap();
    match img {
        SicImage::Static(b) => assert_eq!(vec![5, 6, 7, 8, 1, 2, 3, 4], b.data),
        SicImage::Animated(_) => panic!("image representation changed"),
    }
}

#[test]
fn test_flip_horizontal_twice_restores_image() {
    let original = vec![1, 2, 3, 4, 5, 6, 7, 8, 9, 10, 11, 12, 13, 14, 15, 16];
    let mut img = SicImage::Static(buf(2, 2, original.clone()));
    apply_operation(&Operation::FlipHorizontal, &mut img).unwrap();
    apply_operation(&Operation::FlipHorizontal, &mut img).unwrap();
    match img {
        SicImage::Static(b) => assert_eq!(original, b.data),
        SicImage::Animated(_) => panic!("image representation changed"),
    }
}

#[test]
fn test_crop_takes_exact_subrectangle() {
    let mut img = SicImage::Static(buf(
        2,
        2,
        vec![1, 1, 1, 1, 2, 2, 2, 2, 3, 3, 3, 3, 4, 4, 4, 4],
    ));
    apply_operation(&Operation::Crop(1, 0, 1, 2), &mut img).unwrap();
    match img {
        SicImage::Static(b) => {
            assert_eq!(1, b.width);
            assert_eq!(2, b.height);
            assert_eq!(vec![2, 2, 2, 2, 4, 4, 4, 4], b.data);
        }
        SicImage::Animated(_) => panic!("image representation changed"),
    }
}

#[test]
fn test_crop_outside_bounds_fails_and_leaves_image_unchanged() {
    let original = vec![1, 2, 3, 4, 5, 6, 7, 8, 9, 10, 11, 12, 13, 14, 15, 16];
    let mut img = SicImage::Static(buf(2, 2, original.clone()));
    let err = apply_operation(&Operation::Crop(5, 5, 10, 10), &mut img).unwrap_err();
    assert_eq!(SicImageEngineError::CropOutOfBounds, err);
    match img {
        SicImage::Static(b) => assert_eq!(original, b.data),
        SicImage::Animated(_) => panic!("image representation changed"),
    }
}

#[test]
fn test_crop_zero_area_fails() {
    let mut img = SicImage::Static(solid(2, 2, [9, 9, 9, 255]));
    let err = apply_operation(&Operation::Crop(0, 0, 0, 2), &mut img).unwrap_err();
    assert_eq!(SicImageEngineError::CropOutOfBounds, err);
}

#[test]
fn test_resize_reaches_requested_dimensions() {
    let mut img = SicImage::Static(solid(1, 1, [10, 20, 30, 255]));
    apply_operation(&Operation::Resize(2, 2), &mut img).unwrap();
    match img {
        SicImage::Static(b) => {
            assert_eq!(2, b.width);
            assert_eq!(2, b.height);
            assert_eq!(solid(2, 2, [10, 20, 30, 255]).data, b.data);
        }
        SicImage::Animated(_) => panic!("image representation changed"),
    }
}

#[test]
fn test_blur_keeps_dimensions_and_changes_pixels() {
    let mut data = solid(4, 4, [0, 0, 0, 255]).data;
    for px in 0..8 {
        data[4 * px] = 255;
        data[4 * px + 1] = 255;
        data[4 * px + 2] = 255;
    }
    let original = data.clone();
    let mut img = SicImage::Static(buf(4, 4, data));
    apply_operation(&Operation::Blur(5), &mut img).unwrap();
    match img {
        SicImage::Static(b) => {
            assert_eq!(4, b.width);
            assert_eq!(4, b.height);
            assert_eq!(original.len(), b.data.len());
            assert_ne!(original, b.data);
        }
        SicImage::Animated(_) => panic!("image representation changed"),
    }
}

#[test]
fn test_animated_frame_local_matches_per_frame_static() {
    let frames = vec![
        Frame { buffer: buf(2, 1, vec![1, 2, 3, 4, 5, 6, 7, 8]), delay_num: 10, delay_den: 1 },
        Frame { buffer: buf(2, 1, vec![8, 7, 6, 5, 4, 3, 2, 1]), delay_num: 20, delay_den: 1 },
        Frame { buffer: solid(2, 1, [200, 100, 50, 255]), delay_num: 30, delay_den: 1 },
    ];
    let mut animated = SicImage::Animated(frames.iter().map(|f| Frame {
        buffer: buf(f.buffer.width, f.buffer.height, f.buffer.data.clone()),
        delay_num: f.delay_num,
        delay_den: f.delay_den,
    }).collect());
    apply_operation(&Operation::FlipHorizontal, &mut animated).unwrap();
    match animated {
        SicImage::Animated(out) => {
            assert_eq!(3, out.len());
            for (i, f) in frames.iter().enumerate() {
                let mut single = SicImage::Static(buf(
                    f.buffer.width,
                    f.buffer.height,
                    f.buffer.data.clone(),
                ));
                apply_operation(&Operation::FlipHorizontal, &mut single).unwrap();
                match single {
                    SicImage::Static(b) => {
                        assert_eq!(b.data, out[i].buffer.data);
                        assert_eq!(f.delay_num, out[i].delay_num);
                        assert_eq!(f.delay_den, out[i].delay_den);
                    }
                    SicImage::Animated(_) => panic!("image representation changed"),
                }
            }
        }
        SicImage::Static(_) => panic!("image representation changed"),
    }
}

#[test]
fn test_animated_crop_failure_leaves_all_frames_unchanged() {
    let frames = vec![
        Frame { buffer: solid(2, 2, [1, 2, 3, 255]), delay_num: 10, delay_den: 1 },
        Frame { buffer: solid(1, 1, [4, 5, 6, 255]), delay_num: 10, delay_den: 1 },
    ];
    let mut img = SicImage::Animated(frames.iter().map(|f| Frame {
        buffer: buf(f.buffer.width, f.buffer.height, f.buffer.data.clone()),
        delay_num: f.delay_num,
        delay_den: f.delay_den,
    }).collect());
    // The selection fits the first frame but not the second: the whole
    // operation fails and no frame may be changed.
    let err = apply_operation(&Operation::Crop(0, 0, 2, 2), &mut img).unwrap_err();
    assert_eq!(SicImageEngineError::CropOutOfBounds, err);
    match img {
        SicImage::Animated(out) => {
            assert_eq!(2, out.len());
            assert_eq!(frames[0].buffer.data, out[0].buffer.data);
            assert_eq!(frames[1].buffer.data, out[1].buffer.data);
        }
        SicImage::Static(_) => panic!("image representation changed"),
    }
}

#[test]
fn test_pipeline_applies_operations_in_order() {
    let ops = parse_image_operations(b"flip_horizontal; crop 1 0 1 1;").unwrap();
    let mut img = SicImage::Static(buf(2, 1, vec![1, 1, 1, 1, 2, 2, 2, 2]));
    run_pipeline(&ops, &mut img).unwrap();
    // Flipping first puts pixel 1 on the right, so the crop takes pixel 1.
    match img {
        SicImage::Static(b) => assert_eq!(vec![1, 1, 1, 1], b.data),
        SicImage::Animated(_) => panic!("image representation changed"),
    }
}

#[test]
fn test_pipeline_short_circuits_on_first_failure() {
    let ops = vec![
        Operation::FlipHorizontal,
        Operation::Crop(9, 9, 9, 9),
        Operation::FlipVertical,
    ];
    let mut img = SicImage::Static(buf(2, 2, vec![
        1, 2, 3, 4, 5, 6, 7, 8, 9, 10, 11, 12, 13, 14, 15, 16,
    ]));
    let mut only_first = SicImage::Static(buf(2, 2, vec![
        1, 2, 3, 4, 5, 6, 7, 8, 9, 10, 11, 12, 13, 14, 15, 16,
    ]));
    apply_operation(&Operation::FlipHorizontal, &mut only_first).unwrap();

    let err = run_pipeline(&ops, &mut img).unwrap_err();
    assert_eq!(SicImageEngineError::CropOutOfBounds, err);
    match (img, only_first) {
        (SicImage::Static(got), SicImage::Static(expected)) => {
            // The first operation's effect is present; the failing crop and
            // the flip after it contributed nothing.
            assert_eq!(expected.data, got.data);
        }
        _ => panic!("image representation changed"),
    }
}

#[test]
fn test_speech_resolves_once_and_composites_every_frame() {
    let banner = solid(1, 1, [0, 0, 255, 255]);
    let resource = ImageFromPath::Loaded(banner);
    let frames = vec![
        Frame { buffer: solid(2, 2, [255, 0, 0, 255]), delay_num: 10, delay_den: 1 },
        Frame { buffer: solid(2, 2, [0, 255, 0, 255]), delay_num: 20, delay_den: 1 },
        Frame { buffer: solid(2, 2, [255, 255, 255, 255]), delay_num: 30, delay_den: 1 },
    ];
    let mut animated = SicImage::Animated(frames.iter().map(|f| Frame {
        buffer: buf(f.buffer.width, f.buffer.height, f.buffer.data.clone()),
        delay_num: f.delay_num,
        delay_den: f.delay_den,
    }).collect());
    Speech::new(&resource).apply_operation(&mut animated).unwrap();
    match animated {
        SicImage::Animated(out) => {
            assert_eq!(3, out.len());
            for (i, f) in frames.iter().enumerate() {
                // Each frame is composited against the same resolved banner,
                // exactly as the frame alone would be.
                let mut single = SicImage::Static(buf(
                    f.buffer.width,
                    f.buffer.height,
                    f.buffer.data.clone(),
                ));
                Speech::new(&resource).apply_operation(&mut single).unwrap();
                match single {
                    SicImage::Static(b) => {
                        assert_eq!(2, out[i].buffer.width);
                        assert_eq!(152, out[i].buffer.height);
                        assert_eq!(b.data, out[i].buffer.data);
                        assert_eq!(f.delay_num, out[i].delay_num);
                    }
                    SicImage::Animated(_) => panic!("image representation changed"),
                }
                // The frame was pasted at row 150: its first pasted pixel
                // keeps the frame's own colour.
                let row_offset = 4 * (150 * out[i].buffer.width as usize);
                assert_eq!(f.buffer.data[0], out[i].buffer.data[row_offset]);
                // The banner strip at the top holds the banner's colour.
                assert_eq!(255, out[i].buffer.data[2]);
            }
        }
        SicImage::Static(_) => panic!("image representation changed"),
    }
}

#[test]
fn test_speech_missing_resource_fails_and_leaves_image_unchanged() {
    let resource = ImageFromPath::Path(String::from("no_such_banner_image.png"));
    let original = solid(2, 2, [1, 2, 3, 255]);
    let mut img = SicImage::Static(buf(2, 2, original.data.clone()));
    let err = Speech::new(&resource).apply_operation(&mut img).unwrap_err();
    assert_eq!(SicImageEngineError::LoadImageFromPath, err);
    match img {
        SicImage::Static(b) => assert_eq!(original.data, b.data),
        SicImage::Animated(_) => panic!("image representation changed"),
    }
}

#[test]
fn test_open_image_rejects_malformed_preloaded_buffer() {
    let bad = ImageBuffer { width: 2, height: 2, data: vec![0, 0, 0] };
    let resource = ImageFromPath::Loaded(bad);
    match resource.open_image() {
        Ok(_) => panic!("malformed preloaded buffer was accepted"),
        Err(e) => assert_eq!(SicImageEngineError::LoadImageFromPath, e),
    }
    let good = ImageFromPath::Loaded(solid(1, 1, [1, 2, 3, 4]));
    assert_eq!(vec![1, 2, 3, 4], good.open_image().unwrap().data);
}
