use tiny_soft_renderer::color::Color;
use tiny_soft_renderer::math::vec2;
use tiny_soft_renderer::texture::{Texture, TextureError, UV_ONE};

fn four_texels() -> Texture {
    // 2x2 texels: top row red, green; bottom row blue, white.
    let bytes = vec![
        255, 0, 0, 255, //
        0, 255, 0, 255, //
        0, 0, 255, 255, //
        255, 255, 255, 255,
    ];
    Texture::from_rgba(2, 2, &bytes).unwrap()
}

#[test]
fn test_texture_sample_corners() {
    let t = four_texels();
    // uv (0, 0) samples the decoded image's pixel (0, 0).
    assert_eq!(t.get_color(&vec2(0, 0)), Color::rgb(255, 0, 0));
    // uv approaching (1, 1) samples the pixel (width - 1, height - 1).
    assert_eq!(t.get_color(&vec2(UV_ONE - 1, UV_ONE - 1)), Color::rgb(255, 255, 255));
    // uv exactly (1, 1) clamps to the same last texel.
    assert_eq!(t.get_color(&vec2(UV_ONE, UV_ONE)), Color::rgb(255, 255, 255));
}

#[test]
fn test_texture_sample_cells() {
    let t = four_texels();
    // Each uv cell maps to its texel: just past 0.5 lands in the second one.
    assert_eq!(t.get_color(&vec2(UV_ONE / 2, 0)), Color::rgb(0, 255, 0));
    assert_eq!(t.get_color(&vec2(0, UV_ONE / 2)), Color::rgb(0, 0, 255));
    assert_eq!(t.get_color(&vec2(UV_ONE / 2 - 1, UV_ONE / 2 - 1)), Color::rgb(255, 0, 0));
}

#[test]
fn test_from_rgba_pixels() {
    let bytes = vec![1, 2, 3, 4, 5, 6, 7, 8];
    let t = Texture::from_rgba(2, 1, &bytes).unwrap();
    assert_eq!(t.width, 2);
    assert_eq!(t.height, 1);
    assert_eq!(t.pixels, vec![Color::rgba(1, 2, 3, 4), Color::rgba(5, 6, 7, 8)]);
}

#[test]
fn test_from_rgba_empty_image() {
    let bytes: Vec<u8> = vec![];
    assert_eq!(Texture::from_rgba(0, 4, &bytes).err(), Some(TextureError::EmptyImage));
    assert_eq!(Texture::from_rgba(4, 0, &bytes).err(), Some(TextureError::EmptyImage));
}

#[test]
fn test_from_rgba_too_large() {
    let bytes: Vec<u8> = vec![];
    assert_eq!(Texture::from_rgba(65536, 65536, &bytes).err(), Some(TextureError::TooLarge));
}

#[test]
fn test_from_rgba_wrong_length() {
    let bytes = vec![0, 0, 0];
    assert_eq!(Texture::from_rgba(1, 1, &bytes).err(), Some(TextureError::WrongLength));
}
