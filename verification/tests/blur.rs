use dropzone::blur::{blur, kernel_radius, BlurChannels, BlurKernel};
use dropzone::error::ZoneError;
use dropzone::pixel::{Argb, PixelBuffer};
use dropzone::ratio::Ratio;

fn alpha_row(values: &[u8]) -> PixelBuffer {
    let mut buffer = PixelBuffer::new(values.len(), 1).unwrap();
    for (x, value) in values.iter().enumerate() {
        let pixel = Argb { alpha: *value, red: 0, green: 0, blue: 0 };
        buffer.set_pixel(x, 0, pixel).unwrap();
    }
    buffer
}

fn alpha_column(values: &[u8]) -> PixelBuffer {
    let mut buffer = PixelBuffer::new(1, values.len()).unwrap();
    for (y, value) in values.iter().enumerate() {
        let pixel = Argb { alpha: *value, red: 0, green: 0, blue: 0 };
        buffer.set_pixel(0, y, pixel).unwrap();
    }
    buffer
}

fn alphas(buffer: &PixelBuffer) -> Vec<u8> {
    let mut out = Vec::new();
    for y in 0..buffer.height() {
        for x in 0..buffer.width() {
            out.push(buffer.alpha(x, y).unwrap());
        }
    }
    out
}

#[test]
fn a_kernel_needs_an_odd_number_of_taps() {
    assert_eq!(BlurKernel::new(vec![]).err(), Some(ZoneError::InvalidArgument));
    assert_eq!(BlurKernel::new(vec![1, 1]).err(), Some(ZoneError::InvalidArgument));
    assert_eq!(BlurKernel::new(vec![1, 2, 2, 1]).err(), Some(ZoneError::InvalidArgument));
}

#[test]
fn a_kernel_needs_a_centre_that_counts() {
    assert_eq!(BlurKernel::new(vec![1, 0, 1]).err(), Some(ZoneError::InvalidArgument));
    assert_eq!(BlurKernel::new(vec![0]).err(), Some(ZoneError::InvalidArgument));
}

#[test]
fn a_kernel_reads_the_same_from_both_ends() {
    assert_eq!(BlurKernel::new(vec![1, 1, 5]).err(), Some(ZoneError::InvalidArgument));
    assert_eq!(BlurKernel::new(vec![1, 4, 6, 4, 2]).err(), Some(ZoneError::InvalidArgument));
    assert_eq!(BlurKernel::new(vec![1, 4, 6, 5, 1]).err(), Some(ZoneError::InvalidArgument));
    assert_eq!(
        BlurKernel::for_sigma(Ratio { numer: 1, denom: 2 }, vec![1, 4, 6, 4, 0]).err(),
        Some(ZoneError::InvalidArgument)
    );
    assert!(BlurKernel::new(vec![0, 4, 6, 4, 0]).is_ok());
    assert!(BlurKernel::new(vec![7]).is_ok());
}

#[test]
fn a_mirrored_row_blurs_to_the_mirrored_result() {
    let kernel = BlurKernel::new(vec![1, 3, 9, 3, 1]).unwrap();
    let row = [255u8, 0, 0, 17, 200, 3, 90];
    let mut mirrored = row;
    mirrored.reverse();
    let mut forward = alpha_row(&row);
    let mut backward = alpha_row(&mirrored);
    blur(&mut forward, &kernel, BlurChannels::AlphaOnly);
    blur(&mut backward, &kernel, BlurChannels::AlphaOnly);
    let mut expected = alphas(&forward);
    expected.reverse();
    assert_eq!(alphas(&backward), expected);
}

#[test]
fn a_kernel_keeps_its_weights() {
    let kernel = BlurKernel::new(vec![1, 4, 6, 4, 1]).unwrap();
    assert_eq!(kernel.len(), 5);
    assert_eq!(kernel.radius(), 2);
    assert_eq!(kernel.weights(), &vec![1, 4, 6, 4, 1]);
}

#[test]
fn reach_is_three_spreads_rounded_up() {
    assert_eq!(kernel_radius(Ratio { numer: 2, denom: 1 }), Ok(6));
    assert_eq!(kernel_radius(Ratio { numer: 1, denom: 2 }), Ok(2));
    assert_eq!(kernel_radius(Ratio { numer: 1, denom: 3 }), Ok(1));
    assert_eq!(kernel_radius(Ratio { numer: 5, denom: 2 }), Ok(8));
    assert_eq!(kernel_radius(Ratio { numer: 1, denom: 1000 }), Ok(1));
}

#[test]
fn a_spread_must_be_positive() {
    assert_eq!(kernel_radius(Ratio { numer: 0, denom: 1 }), Err(ZoneError::InvalidArgument));
    assert_eq!(kernel_radius(Ratio { numer: 1, denom: 0 }), Err(ZoneError::InvalidArgument));
    assert_eq!(
        BlurKernel::for_sigma(Ratio { numer: 0, denom: 1 }, vec![1]).err(),
        Some(ZoneError::InvalidArgument)
    );
    assert_eq!(
        BlurKernel::for_sigma(Ratio { numer: 1, denom: 0 }, vec![1, 1, 1]).err(),
        Some(ZoneError::InvalidArgument)
    );
}

#[test]
fn a_kernel_for_a_spread_has_the_reach_of_the_spread() {
    let half = Ratio { numer: 1, denom: 2 };
    let kernel = BlurKernel::for_sigma(half, vec![1, 4, 6, 4, 1]).unwrap();
    assert_eq!(kernel.radius(), 2);
    assert_eq!(
        BlurKernel::for_sigma(half, vec![1, 2, 1]).err(),
        Some(ZoneError::InvalidArgument)
    );
    assert_eq!(
        BlurKernel::for_sigma(half, vec![1, 2, 3, 4, 3, 2, 1]).err(),
        Some(ZoneError::InvalidArgument)
    );
    assert_eq!(
        BlurKernel::for_sigma(half, vec![1, 4, 0, 4, 1]).err(),
        Some(ZoneError::InvalidArgument)
    );
    assert_eq!(
        BlurKernel::for_sigma(half, vec![1, 4, 6, 4]).err(),
        Some(ZoneError::InvalidArgument)
    );
}

#[test]
fn uniform_alpha_survives_a_blur() {
    for channels in [BlurChannels::AlphaOnly, BlurChannels::Argb] {
        for alpha in [0u8, 1, 77, 200, 255] {
            let mut buffer = PixelBuffer::new(7, 5).unwrap();
            for y in 0..5 {
                for x in 0..7 {
                    let pixel = Argb { alpha, red: 0, green: 0, blue: 0 };
                    buffer.set_pixel(x, y, pixel).unwrap();
                }
            }
            let kernel = BlurKernel::new(vec![3, 17, 40, 91, 40, 17, 3]).unwrap();
            blur(&mut buffer, &kernel, channels);
            assert!(alphas(&buffer).iter().all(|a| *a == alpha));
        }
    }
}

#[test]
fn a_row_is_averaged_over_the_taps_inside_it() {
    let mut buffer = alpha_row(&[10, 20, 30]);
    let kernel = BlurKernel::new(vec![1, 2, 1]).unwrap();
    blur(&mut buffer, &kernel, BlurChannels::AlphaOnly);
    // (2*10 + 20) / 3, (10 + 2*20 + 30) / 4, (20 + 2*30) / 3
    assert_eq!(alphas(&buffer), vec![13, 20, 26]);
}

#[test]
fn a_column_is_averaged_over_the_taps_inside_it() {
    let mut buffer = alpha_column(&[10, 20, 30]);
    let kernel = BlurKernel::new(vec![1, 2, 1]).unwrap();
    blur(&mut buffer, &kernel, BlurChannels::AlphaOnly);
    assert_eq!(alphas(&buffer), vec![13, 20, 26]);
}

#[test]
fn edges_are_not_darkened() {
    let mut buffer = alpha_row(&[255, 255, 0, 0, 0]);
    let kernel = BlurKernel::new(vec![1, 1, 1, 1, 1]).unwrap();
    blur(&mut buffer, &kernel, BlurChannels::AlphaOnly);
    // 510/3, 510/4, 510/5, 255/4, 0/3
    assert_eq!(alphas(&buffer), vec![170, 127, 102, 63, 0]);
}

#[test]
fn rows_are_blurred_before_columns() {
    let mut buffer = PixelBuffer::new(2, 2).unwrap();
    let lit = Argb { alpha: 255, red: 0, green: 0, blue: 0 };
    buffer.set_pixel(0, 0, lit).unwrap();
    let kernel = BlurKernel::new(vec![1, 2, 1]).unwrap();
    blur(&mut buffer, &kernel, BlurChannels::AlphaOnly);
    // rows: (2*255)/3 = 170, 255/3 = 85 on top, 0 and 0 below
    // columns: (2*170)/3 = 113, (2*85)/3 = 56 on top, 170/3 = 56, 85/3 = 28 below
    assert_eq!(alphas(&buffer), vec![113, 56, 56, 28]);
}

#[test]
fn a_single_tap_changes_nothing() {
    let mut buffer = alpha_row(&[1, 200, 3, 90]);
    let before = buffer.bytes().clone();
    let kernel = BlurKernel::new(vec![9]).unwrap();
    blur(&mut buffer, &kernel, BlurChannels::Argb);
    assert_eq!(buffer.bytes(), &before);
}

#[test]
fn an_alpha_blur_leaves_colour_alone() {
    let mut buffer = PixelBuffer::new(3, 1).unwrap();
    buffer.set_pixel(0, 0, Argb { alpha: 10, red: 90, green: 60, blue: 30 }).unwrap();
    buffer.set_pixel(1, 0, Argb { alpha: 20, red: 0, green: 0, blue: 0 }).unwrap();
    buffer.set_pixel(2, 0, Argb { alpha: 30, red: 9, green: 6, blue: 3 }).unwrap();
    let kernel = BlurKernel::new(vec![1, 2, 1]).unwrap();
    blur(&mut buffer, &kernel, BlurChannels::AlphaOnly);
    assert_eq!(buffer.pixel(0, 0), Some(Argb { alpha: 13, red: 90, green: 60, blue: 30 }));
    assert_eq!(buffer.pixel(1, 0), Some(Argb { alpha: 20, red: 0, green: 0, blue: 0 }));
    assert_eq!(buffer.pixel(2, 0), Some(Argb { alpha: 26, red: 9, green: 6, blue: 3 }));
}

#[test]
fn a_full_blur_takes_every_channel() {
    let mut buffer = PixelBuffer::new(3, 1).unwrap();
    buffer.set_pixel(0, 0, Argb { alpha: 10, red: 90, green: 60, blue: 30 }).unwrap();
    buffer.set_pixel(1, 0, Argb { alpha: 20, red: 0, green: 0, blue: 0 }).unwrap();
    buffer.set_pixel(2, 0, Argb { alpha: 30, red: 9, green: 6, blue: 3 }).unwrap();
    let kernel = BlurKernel::new(vec![1, 2, 1]).unwrap();
    blur(&mut buffer, &kernel, BlurChannels::Argb);
    // red: 180/3, 99/4, 18/3; green: 120/3, 66/4, 12/3; blue: 60/3, 33/4, 6/3
    assert_eq!(buffer.pixel(0, 0), Some(Argb { alpha: 13, red: 60, green: 40, blue: 20 }));
    assert_eq!(buffer.pixel(1, 0), Some(Argb { alpha: 20, red: 24, green: 16, blue: 8 }));
    assert_eq!(buffer.pixel(2, 0), Some(Argb { alpha: 26, red: 6, green: 4, blue: 2 }));
}

#[test]
fn padding_between_rows_is_left_alone() {
    let mut data = vec![0u8; 16];
    data[3] = 100;
    data[4] = 0xaa;
    data[7] = 0xbb;
    data[8 + 3] = 50;
    data[8 + 5] = 0xcc;
    let mut buffer = PixelBuffer::from_raw(1, 2, 8, data).unwrap();
    let kernel = BlurKernel::new(vec![1, 1, 1]).unwrap();
    blur(&mut buffer, &kernel, BlurChannels::Argb);
    assert_eq!(buffer.alpha(0, 0), Some(75));
    assert_eq!(buffer.alpha(0, 1), Some(75));
    assert_eq!(buffer.bytes()[4], 0xaa);
    assert_eq!(buffer.bytes()[7], 0xbb);
    assert_eq!(buffer.bytes()[8 + 5], 0xcc);
    assert_eq!(buffer.stride(), 8);
}

#[test]
fn large_weights_do_not_overflow() {
    let mut buffer = alpha_row(&[255, 255, 255, 254]);
    let kernel = BlurKernel::new(vec![u32::MAX; 7]).unwrap();
    blur(&mut buffer, &kernel, BlurChannels::AlphaOnly);
    assert_eq!(alphas(&buffer), vec![254, 254, 254, 254]);
}

#[test]
fn a_blur_reaches_no_further_than_its_kernel() {
    let mut buffer = PixelBuffer::new(6, 6).unwrap();
    let lit = Argb { alpha: 255, red: 0, green: 0, blue: 0 };
    buffer.set_pixel(0, 0, lit).unwrap();
    let kernel = BlurKernel::new(vec![1, 2, 1]).unwrap();
    blur(&mut buffer, &kernel, BlurChannels::AlphaOnly);
    for y in 0..6 {
        for x in 0..6 {
            let alpha = buffer.alpha(x, y).unwrap();
            if x >= 2 || y >= 2 {
                assert_eq!(alpha, 0);
            } else {
                assert!(alpha > 0);
            }
        }
    }
}
