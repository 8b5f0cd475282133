use rawimage::bayer::{channel_at, convert_rgb_to_bayer};
use rawimage::{CfaLayout, Channel, PixelBuffer, RawError, RgbFrame};

fn uniform(width: usize, height: usize) -> RgbFrame {
    RgbFrame::new(width, height, vec![(10u8, 20u8, 30u8); width * height]).unwrap()
}

#[test]
fn quadrant_rule_on_uniform_image() {
    let frame = uniform(6, 5);
    let b = PixelBuffer::<u16>::new_from_rgbimage(&frame, CfaLayout::ByQuadrant).unwrap();
    assert_eq!((6, 5), b.shape());
    assert_eq!(Ok(10), b.get(0, 0));
    assert_eq!(Ok(20), b.get(1, 0));
    assert_eq!(Ok(20), b.get(0, 1));
    assert_eq!(Ok(30), b.get(1, 1));
    for y in 0..5 {
        for x in 0..6 {
            assert_eq!(b.get(x % 2, y % 2), b.get(x, y));
        }
    }
}

#[test]
fn parity_rule_on_uniform_image() {
    let frame = uniform(3, 3);
    let b = PixelBuffer::<u8>::new_from_rgbimage(&frame, CfaLayout::default()).unwrap();
    assert_eq!(&vec![10u8, 20, 10, 20, 30, 20, 10, 20, 10], b.data());
}

#[test]
fn sampling_picks_each_pixel_own_channel() {
    let pixels: Vec<(u8, u8, u8)> = vec![(1, 2, 3), (4, 5, 6), (7, 8, 9), (10, 11, 12)];
    let frame = RgbFrame::new(2, 2, pixels).unwrap();
    let b = PixelBuffer::<u32>::new_from_rgbimage(&frame, CfaLayout::ByParity).unwrap();
    assert_eq!(&vec![1u32, 5, 8, 12], b.data());
    assert_eq!(8, convert_rgb_to_bayer(&frame, CfaLayout::ByQuadrant, 0, 1));
}

#[test]
fn channel_pattern() {
    assert_eq!(Channel::Red, channel_at(CfaLayout::ByQuadrant, 2, 4));
    assert_eq!(Channel::Green, channel_at(CfaLayout::ByQuadrant, 3, 4));
    assert_eq!(Channel::Green, channel_at(CfaLayout::ByParity, 2, 5));
    assert_eq!(Channel::Blue, channel_at(CfaLayout::ByParity, 3, 5));
}

#[test]
fn empty_frame_is_refused() {
    let frame = RgbFrame::new(0, 4, vec![]).unwrap();
    assert_eq!(
        Err(RawError::InvalidDimensions),
        PixelBuffer::<u16>::new_from_rgbimage(&frame, CfaLayout::ByParity).map(|b| b.width())
    );
}

#[test]
fn frame_length_is_checked() {
    assert!(matches!(RgbFrame::new(2, 2, vec![(0, 0, 0); 3]), Err(RawError::InvalidDimensions)));
}
