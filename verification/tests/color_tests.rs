use tiny_soft_renderer::color::Color;

#[test]
fn test_color_constructors() {
    let c = Color::rgb(10, 20, 30);
    assert_eq!((c.r, c.g, c.b, c.a), (10, 20, 30, 255));

    let c = Color::rgba(10, 20, 30, 40);
    assert_eq!((c.r, c.g, c.b, c.a), (10, 20, 30, 40));

    assert_eq!(Color::white(), Color::rgb(255, 255, 255));
    assert_eq!(Color::black(), Color::rgb(0, 0, 0));
    assert_eq!(Color::default(), Color::white());
}

#[test]
fn test_color_scaled_half() {
    let c = Color::rgba(100, 200, 40, 77).scaled(1, 2);
    assert_eq!(c, Color::rgba(50, 100, 20, 77));
}

#[test]
fn test_color_scaled_identity() {
    let c = Color::rgba(100, 200, 40, 77).scaled(65536, 65536);
    assert_eq!(c, Color::rgba(100, 200, 40, 77));
}

#[test]
fn test_color_scaled_truncates_overflow() {
    // 200 * 3 / 2 = 300, which truncates to its low byte, 44: intensities
    // above one wrap rather than clamp.
    let c = Color::rgba(100, 200, 40, 77).scaled(3, 2);
    assert_eq!(c, Color::rgba(150, 44, 60, 77));
}

#[test]
fn test_color_random_is_opaque() {
    let c = Color::random();
    assert_eq!(c.a, 255);
}
