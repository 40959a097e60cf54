use raytracer::{red, Color};

#[test]
fn color_new_keeps_channels() {
    let color = Color::new(12, 34, 56);
    assert_eq!(color.red(), 12);
    assert_eq!(color.green(), 34);
    assert_eq!(color.blue(), 56);
}

#[test]
fn color_default_is_black() {
    assert_eq!(Color::default(), Color::new(0, 0, 0));
}

#[test]
fn color_red_is_pure_red() {
    assert_eq!(red(), Color::new(255, 0, 0));
}

#[test]
fn color_equality_is_by_channel() {
    assert_eq!(Color::new(1, 2, 3), Color::new(1, 2, 3));
    assert_ne!(Color::new(1, 2, 3), Color::new(3, 2, 1));
}
