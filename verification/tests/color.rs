use voxel_chunks::color::Color;

#[test]
fn color_from_rgb_is_opaque() {
    let c = Color::from([10u8, 20u8, 30u8]);
    assert_eq!(c.0, [10, 20, 30, 255]);
}

#[test]
fn color_into_rgba_keeps_the_channels() {
    let c = Color([1, 2, 3, 4]);
    assert_eq!(c.into_rgba(), [1, 2, 3, 4]);
}

#[test]
fn colors_are_equal_channel_by_channel() {
    assert!(Color([1, 2, 3, 4]) == Color([1, 2, 3, 4]));
    assert!(Color([1, 2, 3, 4]) != Color([1, 2, 3, 5]));
    assert!(Color([0, 2, 3, 4]) != Color([1, 2, 3, 4]));
    assert!(Color([1, 0, 3, 4]) != Color([1, 2, 3, 4]));
    assert!(Color([1, 2, 0, 4]) != Color([1, 2, 3, 4]));
}

#[test]
fn default_color_is_transparent_black() {
    assert_eq!(Color::default().0, [0, 0, 0, 0]);
}
