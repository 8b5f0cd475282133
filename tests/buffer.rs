use rawimage::{NARaw, NDRaw, PixelBuffer, RawError};

#[test]
fn naraw_test_new() {
    let raw_in = NARaw::<u16>::new(3, 2).unwrap();
    assert_eq!(3, raw_in.width());
    assert_eq!(2, raw_in.height());
}

#[test]
fn naraw_test_new_from_vector() {
    let vec2d: Vec<Vec<u16>> = vec![vec![0, 1, 2, 3], vec![4, 5, 6, 7], vec![8, 9, 10, 11]];
    let mut raw_in = NARaw::<u16>::new_from_vector2d(&vec2d).unwrap();
    for y in 0..vec2d.len() {
        for x in 0..vec2d[0].len() {
            assert_eq!(vec2d[y][x], *raw_in.pix(x, y));
        }
    }
    *raw_in.pix(2, 1) = 30;
    assert_eq!(Ok(30), raw_in.get(2, 1));
    assert!(raw_in.write_binimage().is_ok());
}

#[test]
fn ndraw_test_new() {
    let raw_in = NDRaw::<u16>::new(3, 2).unwrap();
    assert_eq!(3, raw_in.width());
    assert_eq!(2, raw_in.height());
}

#[test]
fn ndraw_test_new_from_vector() {
    let vec2d: Vec<Vec<u16>> = vec![vec![0, 1, 2, 3], vec![4, 5, 6, 7], vec![8, 9, 10, 11]];
    let mut raw_in = NDRaw::<u16>::new_from_vector2d(&vec2d).unwrap();
    for y in 0..vec2d.len() {
        for x in 0..vec2d[0].len() {
            assert_eq!(vec2d[y][x], *raw_in.pix(x, y));
        }
    }
    *raw_in.pix(2, 1) = 20;
    assert_eq!(Ok(20), raw_in.get(2, 1));
    assert!(raw_in.write_binimage().is_ok());
}

#[test]
fn new_has_size_and_zero_cells() {
    let b = PixelBuffer::<u8>::new(5, 4).unwrap();
    assert_eq!((5, 4), b.shape());
    assert_eq!(20, b.data().len());
    for y in 0..4 {
        for x in 0..5 {
            assert_eq!(Ok(0), b.get(x, y));
        }
    }
}

#[test]
fn new_refuses_zero_dimensions() {
    assert_eq!(Err(RawError::InvalidDimensions), PixelBuffer::<u16>::new(0, 7).map(|b| b.width()));
    assert_eq!(Err(RawError::InvalidDimensions), PixelBuffer::<u16>::new(7, 0).map(|b| b.width()));
    assert_eq!(Err(RawError::InvalidDimensions), PixelBuffer::<u32>::new(0, 0).map(|b| b.width()));
}

#[test]
fn from_rows_refuses_ragged_and_empty() {
    let ragged: Vec<Vec<u16>> = vec![vec![1, 2, 3], vec![4, 5]];
    assert_eq!(Err(RawError::InvalidDimensions), PixelBuffer::new_from_vector2d(&ragged).map(|b| b.width()));
    let longer: Vec<Vec<u16>> = vec![vec![1, 2], vec![4, 5, 6]];
    assert_eq!(Err(RawError::InvalidDimensions), PixelBuffer::new_from_vector2d(&longer).map(|b| b.width()));
    let none: Vec<Vec<u16>> = vec![];
    assert_eq!(Err(RawError::InvalidDimensions), PixelBuffer::new_from_vector2d(&none).map(|b| b.width()));
    let empty_row: Vec<Vec<u16>> = vec![vec![]];
    assert_eq!(Err(RawError::InvalidDimensions), PixelBuffer::new_from_vector2d(&empty_row).map(|b| b.width()));
}

#[test]
fn from_rows_reads_back() {
    let rows: Vec<Vec<u32>> = vec![vec![7, 8], vec![9, 10], vec![11, 12]];
    let b = PixelBuffer::new_from_vector2d(&rows).unwrap();
    assert_eq!((2, 3), b.shape());
    assert_eq!(&vec![7, 8, 9, 10, 11, 12], b.data());
    assert_eq!(Ok(12), b.get(1, 2));
    assert_eq!(Ok(9), b.get(0, 1));
}

#[test]
fn pix_write_changes_one_cell() {
    let rows: Vec<Vec<u16>> = vec![vec![0, 1, 2], vec![3, 4, 5]];
    let mut b = PixelBuffer::new_from_vector2d(&rows).unwrap();
    *b.pix(1, 1) = 99;
    assert_eq!(Ok(99), b.get(1, 1));
    assert_eq!(&vec![0, 1, 2, 3, 99, 5], b.data());
}

#[test]
fn get_out_of_bounds() {
    let b = PixelBuffer::<u16>::new(4, 3).unwrap();
    assert_eq!(Err(RawError::OutOfBounds), b.get(4, 0));
    assert_eq!(Err(RawError::OutOfBounds), b.get(0, 3));
    assert_eq!(Ok(0), b.get(3, 2));
}

#[test]
fn from_shape_vec_checks_length() {
    assert_eq!(Err(RawError::InvalidDimensions), PixelBuffer::from_shape_vec(2, 2, vec![1u8, 2, 3]).map(|b| b.width()));
    let b = PixelBuffer::from_shape_vec(3, 1, vec![1u8, 2, 3]).unwrap();
    assert_eq!(Ok(3), b.get(2, 0));
}
