use tiny_soft_renderer::color::Color;
use tiny_soft_renderer::math::{vec2, vec3};
use tiny_soft_renderer::renderer::Renderer;
use tiny_soft_renderer::texture::{Texture, UV_ONE};

#[test]
fn test_barycentric() {
    let t0 = vec3(0, 0, 0);
    let t1 = vec3(50, 0, 0);
    let t2 = vec3(0, 50, 0);
    let p = vec3(10, 10, 0);

    let bc = Renderer::barycentric(&t0, &t1, &t2, &p);
    let x = bc.num0 as f32 / bc.den as f32;
    let y = bc.num1 as f32 / bc.den as f32;
    let z = bc.num2 as f32 / bc.den as f32;
    assert_eq!((x, y, z), (0.6, 0.2, 0.2));
    assert!((x + y + z - 1.0).abs() < 1e-4);
    assert!(bc.is_inside());
}

#[test]
fn test_barycentric_outside_and_degenerate() {
    let t0 = vec3(0, 0, 0);
    let t1 = vec3(50, 0, 0);
    let t2 = vec3(0, 50, 0);
    // A point outside the triangle has a negative weight.
    let bc = Renderer::barycentric(&t0, &t1, &t2, &vec3(40, 40, 0));
    assert!(!bc.is_inside());
    // A degenerate (collinear) triangle reports every point outside.
    let bc = Renderer::barycentric(&t0, &t1, &vec3(25, 0, 0), &vec3(10, 0, 0));
    assert!(!bc.is_inside());
    assert_eq!((bc.num0, bc.num1, bc.num2, bc.den), (-1, 1, 1, 1));
}

#[test]
fn test_draw_line_horizontal() {
    let mut r = Renderer::new(5, 1, false);
    let red = Color::rgb(255, 0, 0);
    r.clear(Color::black());
    r.draw_line(&vec2(0, 0), &vec2(4, 0), red);
    let pixels = r.pixels();
    assert_eq!(pixels.len(), 5);
    for p in pixels.iter() {
        assert_eq!(*p, red);
    }
}

#[test]
fn test_draw_line_exact_pixels() {
    // The line (0,0)-(4,0) touches exactly (0,0),(1,0),(2,0),(3,0),(4,0).
    let mut r = Renderer::new(5, 3, false);
    let red = Color::rgb(255, 0, 0);
    let black = Color::black();
    r.clear(black);
    r.draw_line(&vec2(0, 0), &vec2(4, 0), red);
    for y in 0..3u32 {
        for x in 0..5u32 {
            let want = if y == 0 { red } else { black };
            assert_eq!(r.pixels()[(y * 5 + x) as usize], want);
        }
    }
}

#[test]
fn test_draw_line_symmetric() {
    let white = Color::white();
    let black = Color::black();
    let a = vec2(2, 3);
    let b = vec2(17, 9);
    let mut r1 = Renderer::new(20, 20, false);
    r1.clear(black);
    r1.draw_line(&a, &b, white);
    let mut r2 = Renderer::new(20, 20, false);
    r2.clear(black);
    r2.draw_line(&b, &a, white);
    assert_eq!(r1.pixels(), r2.pixels());

    // A steep line, both directions.
    let a = vec2(4, 1);
    let b = vec2(6, 18);
    let mut r1 = Renderer::new(20, 20, false);
    r1.clear(black);
    r1.draw_line(&a, &b, white);
    let mut r2 = Renderer::new(20, 20, false);
    r2.clear(black);
    r2.draw_line(&b, &a, white);
    assert_eq!(r1.pixels(), r2.pixels());
}

#[test]
fn test_clear_resets_every_pixel() {
    let mut r = Renderer::new(4, 3, false);
    let blue = Color::rgb(0, 0, 255);
    r.clear(blue);
    assert_eq!(r.pixels().len(), 12);
    for p in r.pixels().iter() {
        assert_eq!(*p, blue);
    }
    // The depth buffer is reset too: a very deep triangle still wins the
    // first depth test after a clear.
    let green = Color::rgb(0, 255, 0);
    r.draw_triangle(&vec3(0, 0, -99999), &vec3(3, 0, -99999), &vec3(0, 2, -99999), green);
    assert_eq!(r.pixels()[0], green);
}

#[test]
fn test_depth_tie_keeps_first_color() {
    let red = Color::rgb(255, 0, 0);
    let green = Color::rgb(0, 255, 0);
    let mut r = Renderer::new(10, 10, false);
    r.clear(Color::black());
    let t0 = vec3(0, 0, 5);
    let t1 = vec3(9, 0, 5);
    let t2 = vec3(0, 9, 5);
    r.draw_triangle(&t0, &t1, &t2, red);
    let first = r.pixels().clone();
    r.draw_triangle(&t0, &t1, &t2, green);
    assert_eq!(r.pixels(), &first);
    assert_eq!(r.pixels()[0], red);
}

#[test]
fn test_nearer_triangle_wins_depth() {
    let red = Color::rgb(255, 0, 0);
    let green = Color::rgb(0, 255, 0);
    let mut r = Renderer::new(10, 10, false);
    r.clear(Color::black());
    r.draw_triangle(&vec3(0, 0, 1), &vec3(9, 0, 1), &vec3(0, 9, 1), red);
    r.draw_triangle(&vec3(0, 0, 2), &vec3(9, 0, 2), &vec3(0, 9, 2), green);
    assert_eq!(r.pixels()[0], green);
}

#[test]
fn test_draw_triangle_inside_and_outside() {
    let red = Color::rgb(255, 0, 0);
    let black = Color::black();
    let mut r = Renderer::new(5, 5, false);
    r.clear(black);
    r.draw_triangle(&vec3(0, 0, 0), &vec3(4, 0, 0), &vec3(0, 4, 0), red);
    // Vertices and interior points are filled.
    assert_eq!(r.pixels()[0], red);
    assert_eq!(r.pixels()[4], red);
    assert_eq!(r.pixels()[(4 * 5) as usize], red);
    assert_eq!(r.pixels()[(1 * 5 + 1) as usize], red);
    // The far corner stays untouched.
    assert_eq!(r.pixels()[(4 * 5 + 4) as usize], black);
    assert_eq!(r.pixels()[(3 * 5 + 4) as usize], black);
}

#[test]
fn test_draw_pixel_bounds_and_flip() {
    let red = Color::rgb(255, 0, 0);
    let white = Color::white();
    let mut r = Renderer::new(3, 3, true);
    r.draw_pixel(0, 0, red);
    // With the y flip, pixel (0, 0) lands on the bottom buffer row.
    assert_eq!(r.pixels()[2 * 3], red);
    assert_eq!(r.pixels()[0], white);
    // Out-of-range writes are dropped.
    r.draw_pixel(3, 0, red);
    r.draw_pixel(0, 3, red);
    assert_eq!(r.pixels().iter().filter(|p| **p == red).count(), 1);
}

#[test]
fn test_rgba_bytes_layout() {
    let mut r = Renderer::new(2, 1, false);
    r.clear(Color::rgba(1, 2, 3, 4));
    let bytes = r.rgba_bytes();
    assert_eq!(bytes, vec![1, 2, 3, 4, 1, 2, 3, 4]);
}

#[test]
fn test_renderer_dimensions() {
    let r = Renderer::new(7, 9, false);
    assert_eq!(r.width(), 7);
    assert_eq!(r.height(), 9);
    assert_eq!(r.pixels().len(), 63);
}

#[test]
fn test_draw_triangle_uv_samples_texture() {
    let bytes = vec![
        255, 0, 0, 255, //
        0, 255, 0, 255, //
        0, 0, 255, 255, //
        255, 255, 255, 255,
    ];
    let tex = Texture::from_rgba(2, 2, &bytes).unwrap();
    let mut r = Renderer::new(10, 10, false);
    r.clear(Color::black());
    r.draw_triangle_uv(
        &vec3(0, 0, 0),
        &vec3(9, 0, 0),
        &vec3(0, 9, 0),
        &vec2(0, 0),
        &vec2(UV_ONE - 1, 0),
        &vec2(0, UV_ONE - 1),
        &tex,
        UV_ONE,
    );
    // The corner at uv (0, 0) samples the top-left texel.
    assert_eq!(r.pixels()[0], Color::rgb(255, 0, 0));
    // The corner near uv (1, 0) samples the top-right texel.
    assert_eq!(r.pixels()[9], Color::rgb(0, 255, 0));
    // The corner near uv (0, 1) samples the bottom-left texel.
    assert_eq!(r.pixels()[9 * 10], Color::rgb(0, 0, 255));
    // Outside the triangle nothing is drawn.
    assert_eq!(r.pixels()[9 * 10 + 9], Color::black());
}

#[test]
fn test_draw_triangle_uv_intensity() {
    let bytes = vec![200, 100, 50, 255];
    let tex = Texture::from_rgba(1, 1, &bytes).unwrap();
    let mut r = Renderer::new(4, 4, false);
    r.clear(Color::black());
    r.draw_triangle_uv(
        &vec3(0, 0, 0),
        &vec3(3, 0, 0),
        &vec3(0, 3, 0),
        &vec2(0, 0),
        &vec2(0, 0),
        &vec2(0, 0),
        &tex,
        UV_ONE / 2,
    );
    // Half intensity halves each color channel and keeps alpha.
    assert_eq!(r.pixels()[0], Color::rgba(100, 50, 25, 255));
}
