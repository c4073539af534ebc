use rasterizer::FX;
use rasterizer::fx::Fx3;
use rasterizer::framebuffer::Framebuffer;
use rasterizer::texture::Texture;

fn checker_texture() -> Texture {
    // 2 x 2 RGBA8: black, white, mid gray, full red.
    let data = vec![
        0, 0, 0, 255, 255, 255, 255, 255,
        128, 128, 128, 255, 255, 0, 0, 255,
    ];
    Texture::new(data, 2, 2)
}

#[test]
fn bilinear_sample_stays_in_unit_range() {
    let t = checker_texture();
    let steps = [0, FX / 7, FX / 3, FX / 2, 2 * FX / 3, 6 * FX / 7, FX];
    for &u in steps.iter() {
        for &v in steps.iter() {
            let c = t.sample_pixel(u, v);
            for ch in [c.x, c.y, c.z, c.w] {
                assert!(0 <= ch && ch <= FX, "channel {} out of range at ({}, {})", ch, u, v);
            }
        }
    }
}

#[test]
fn one_texel_texture_round_trips() {
    let t = Texture::new(vec![10, 20, 30, 255], 1, 1);
    let expected = (
        10 * (FX as i64) / 255,
        20 * (FX as i64) / 255,
        30 * (FX as i64) / 255,
        FX,
    );
    for &u in [0, FX / 3, FX / 2, FX, -FX / 2, 3 * FX].iter() {
        for &v in [0, FX / 4, FX, 2 * FX].iter() {
            let c = t.sample_pixel(u, v);
            assert_eq!((c.x, c.y, c.z, c.w), expected);
        }
    }
}

#[test]
fn nearest_tap_wraps_with_dimension_minus_one() {
    // A 3 x 1 texture with distinct texels: the wrap modulus is 2, so a
    // coordinate that scales to texel 2 reads texel 0 — the documented
    // addressing quirk.
    let data = vec![10, 0, 0, 255, 0, 20, 0, 255, 0, 0, 30, 255];
    let t = Texture::new(data, 3, 1);
    let left = t.get_pixel(0, 0);
    assert_eq!(left.x, 10 * (FX as i64) / 255);
    let middle = t.get_pixel(FX / 2, 0);
    assert_eq!(middle.y, 20 * (FX as i64) / 255);
    let wrapped = t.get_pixel(5 * FX / 6, 0);
    assert_eq!(wrapped.x, 10 * (FX as i64) / 255);
    // Negative coordinates saturate to the first texel.
    let neg = t.get_pixel(-FX, 0);
    assert_eq!(neg.x, 10 * (FX as i64) / 255);
}

#[test]
fn framebuffer_set_get_and_clear() {
    let mut fb: Framebuffer<i64> = Framebuffer::new(3, 2, 7);
    assert_eq!(fb.width(), 3);
    assert_eq!(fb.height(), 2);
    for y in 0..2usize {
        for x in 0..3usize {
            assert_eq!(fb.get_pixel(x, y), 7);
        }
    }
    fb.set_pixel(2, 1, 42);
    assert_eq!(fb.get_pixel(2, 1), 42);
    assert_eq!(fb.get_pixel(1, 1), 7);
    fb.clear(-5);
    for y in 0..2usize {
        for x in 0..3usize {
            assert_eq!(fb.get_pixel(x, y), -5);
        }
    }
}

#[test]
fn as_buffer_packs_saturated_bytes() {
    let mut fb: Framebuffer<Fx3> = Framebuffer::new(2, 1, Fx3 { x: 0, y: 0, z: 0 });
    fb.set_pixel(0, 0, Fx3 { x: FX, y: 0, z: FX / 2 });
    fb.set_pixel(1, 0, Fx3 { x: -FX, y: 2 * FX, z: FX / 4 });
    let out = fb.as_buffer();
    // Full scale packs to 255, half scale truncates to 127, negatives
    // saturate to 0 and overbright to 255, as a float-to-byte cast would.
    assert_eq!(out[0], (255 << 16) | 127);
    assert_eq!(out[1], (255 << 8) | 63);
}
