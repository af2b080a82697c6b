use dropzone::error::ZoneError;
use dropzone::pixel::{Argb, PixelBuffer};

#[test]
fn new_raster_is_transparent_and_tight() {
    let buffer = PixelBuffer::new(3, 2).unwrap();
    assert_eq!(buffer.width(), 3);
    assert_eq!(buffer.height(), 2);
    assert_eq!(buffer.stride(), 12);
    assert_eq!(buffer.bytes().len(), 24);
    assert!(buffer.bytes().iter().all(|b| *b == 0));
}

#[test]
fn new_raster_needs_both_dimensions() {
    assert_eq!(PixelBuffer::new(0, 4).err(), Some(ZoneError::InvalidArgument));
    assert_eq!(PixelBuffer::new(4, 0).err(), Some(ZoneError::InvalidArgument));
}

#[test]
fn new_raster_must_fit_the_address_space() {
    assert_eq!(PixelBuffer::new(usize::MAX, 2).err(), Some(ZoneError::InvalidArgument));
    assert_eq!(PixelBuffer::new(usize::MAX / 4, 2).err(), Some(ZoneError::InvalidArgument));
}

#[test]
fn raw_bytes_keep_their_stride() {
    let data: Vec<u8> = (0..32).collect();
    let buffer = PixelBuffer::from_raw(3, 2, 16, data.clone()).unwrap();
    assert_eq!(buffer.stride(), 16);
    assert_eq!(buffer.bytes(), &data);
    assert_eq!(
        buffer.pixel(1, 1),
        Some(Argb { blue: 20, green: 21, red: 22, alpha: 23 })
    );
    assert_eq!(buffer.alpha(2, 0), Some(11));
    assert_eq!(buffer.into_bytes(), data);
}

#[test]
fn raw_bytes_are_checked() {
    assert_eq!(
        PixelBuffer::from_raw(0, 2, 16, vec![0; 32]).err(),
        Some(ZoneError::InvalidArgument)
    );
    assert_eq!(
        PixelBuffer::from_raw(3, 0, 16, vec![]).err(),
        Some(ZoneError::InvalidArgument)
    );
    assert_eq!(
        PixelBuffer::from_raw(3, 2, 11, vec![0; 22]).err(),
        Some(ZoneError::BufferBounds)
    );
    assert_eq!(
        PixelBuffer::from_raw(3, 2, 16, vec![0; 31]).err(),
        Some(ZoneError::BufferBounds)
    );
    assert_eq!(
        PixelBuffer::from_raw(3, 2, usize::MAX, vec![0; 32]).err(),
        Some(ZoneError::BufferBounds)
    );
}

#[test]
fn a_written_pixel_reads_back() {
    let mut buffer = PixelBuffer::new(4, 3).unwrap();
    let pixel = Argb { alpha: 200, red: 10, green: 20, blue: 30 };
    assert_eq!(buffer.set_pixel(2, 1, pixel), Ok(()));
    assert_eq!(buffer.pixel(2, 1), Some(pixel));
    assert_eq!(buffer.alpha(2, 1), Some(200));
    let at = 1 * 16 + 2 * 4;
    assert_eq!(&buffer.bytes()[at..at + 4], &[30, 20, 10, 200]);
    for y in 0..3 {
        for x in 0..4 {
            if (x, y) != (2, 1) {
                assert_eq!(
                    buffer.pixel(x, y),
                    Some(Argb { alpha: 0, red: 0, green: 0, blue: 0 })
                );
            }
        }
    }
}

#[test]
fn writing_outside_the_raster_is_refused() {
    let mut buffer = PixelBuffer::new(4, 3).unwrap();
    let pixel = Argb { alpha: 1, red: 2, green: 3, blue: 4 };
    assert_eq!(buffer.set_pixel(4, 0, pixel), Err(ZoneError::BufferBounds));
    assert_eq!(buffer.set_pixel(0, 3, pixel), Err(ZoneError::BufferBounds));
    assert!(buffer.bytes().iter().all(|b| *b == 0));
}

#[test]
fn reading_outside_the_raster_gives_nothing() {
    let buffer = PixelBuffer::new(4, 3).unwrap();
    assert_eq!(buffer.pixel(4, 0), None);
    assert_eq!(buffer.pixel(0, 3), None);
    assert_eq!(buffer.alpha(4, 2), None);
}
