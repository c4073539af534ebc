use rasterizer::FX;
use rasterizer::fx::{Fx2, Fx3, Fx4, Mat4Fx};
use rasterizer::framebuffer::Framebuffer;
use rasterizer::model::{Material, Mesh, Model, Vertex};
use rasterizer::raster::{clip_to_screen_space, edge_function, normalize_fx, project, Triangle};

fn identity() -> Mat4Fx {
    let mut e = [0i64; 16];
    e[0] = FX;
    e[5] = FX;
    e[10] = FX;
    e[15] = FX;
    Mat4Fx { e }
}

fn fx2(x: i64, y: i64) -> Fx2 {
    Fx2 { x, y }
}

fn fx3(x: i64, y: i64, z: i64) -> Fx3 {
    Fx3 { x, y, z }
}

fn vertex(px: i64, py: i64, pz: i64, nz: i64) -> Vertex {
    Vertex {
        position: fx3(px, py, pz),
        normal: fx3(0, 0, nz),
        tex_coord: Fx2 { x: 0, y: 0 },
    }
}

fn white() -> Material {
    Material {
        base_color: Fx4 { x: FX, y: FX, z: FX, w: FX },
        base_color_texture: None,
    }
}

/// The unit triangle of the coverage scenario: NDC (-1,-1), (1,-1), (-1,1),
/// with normals pointing at the camera so covered pixels shade non-black.
fn unit_triangle(z: i64) -> Triangle {
    Triangle {
        vertex: [
            vertex(-FX, -FX, z, FX),
            vertex(FX, -FX, z, FX),
            vertex(-FX, FX, z, FX),
        ],
    }
}

#[test]
fn edge_function_antisymmetry() {
    let a = fx2(3 * FX, 4 * FX);
    let b = fx2(-2 * FX, 7 * FX);
    let c = fx2(5 * FX, -FX);
    assert_eq!(edge_function(a, b, c), -edge_function(a, c, b));
    assert_eq!(edge_function(b, c, a), -edge_function(b, a, c));
}

#[test]
fn edge_function_is_twice_signed_area() {
    // A right triangle with legs 2 and 3 (in fixed-point units) has area 3,
    // so the edge function over its vertices gives 6 (times FX * FX).
    let a = fx2(0, 0);
    let b = fx2(2 * FX, 0);
    let c = fx2(0, 3 * FX);
    assert_eq!(edge_function(a, b, c), 6 * (FX as i128) * (FX as i128));
}

#[test]
fn edge_weights_partition_the_area() {
    let v0 = fx2(4 * FX, 4 * FX);
    let v1 = fx2(0, 4 * FX);
    let v2 = fx2(4 * FX, 0);
    let p = fx2(3 * FX + FX / 2, 3 * FX + FX / 2);
    let a0 = edge_function(v1, v2, p);
    let a1 = edge_function(v2, v0, p);
    let a2 = edge_function(v0, v1, p);
    assert!(a0 > 0 && a1 > 0 && a2 > 0);
    assert_eq!(a0 + a1 + a2, edge_function(v0, v1, v2));
}

#[test]
fn project_identity_keeps_coordinates() {
    let p = project(fx3(FX / 2, -FX / 4, FX / 8), &identity()).unwrap();
    assert_eq!(p.x, FX / 2);
    assert_eq!(p.y, -FX / 4);
    assert_eq!(p.z, FX / 8);
    assert_eq!(p.inv_w, FX);
}

#[test]
fn project_rejects_zero_w() {
    let mut m = identity();
    m.e[15] = 0;
    assert!(project(fx3(0, 0, 0), &m).is_none());
}

#[test]
fn viewport_mapping_flips_both_axes() {
    // (ndc * -1/2 + 1/2) * size: -1 lands on the far edge, +1 on zero.
    let r = clip_to_screen_space(fx2(-FX, FX), 4, 8);
    assert_eq!(r.x, 4 * FX);
    assert_eq!(r.y, 0);
    let center = clip_to_screen_space(fx2(0, 0), 4, 8);
    assert_eq!(center.x, 2 * FX);
    assert_eq!(center.y, 4 * FX);
}

#[test]
fn project_applies_translation_and_divide() {
    // A translation by (1, 2, 3) with w = 2: the divide halves everything
    // and keeps the reciprocal w.
    let mut m = identity();
    m.e[3] = FX;
    m.e[7] = 2 * FX;
    m.e[11] = 3 * FX;
    m.e[15] = 2 * FX;
    let p = project(fx3(0, 0, 0), &m).unwrap();
    assert_eq!(p.x, FX / 2);
    assert_eq!(p.y, FX);
    assert_eq!(p.z, 3 * FX / 2);
    assert_eq!(p.inv_w, FX / 2);
}

#[test]
fn normalize_scales_to_unit_length() {
    let n = normalize_fx(fx3(0, 0, 2 * FX));
    assert_eq!(n, fx3(0, 0, FX));
    let z = normalize_fx(fx3(0, 0, 0));
    assert_eq!(z, fx3(0, 0, 0));
    // A 3-4-5 right triangle of components: (3, 4, 0) / 5.
    let p = normalize_fx(fx3(3 * FX, 4 * FX, 0));
    assert_eq!(p, fx3(3 * FX / 5, 4 * FX / 5, 0));
}

#[test]
fn unit_triangle_covers_one_half_of_a_four_by_four_screen() {
    let mut fb: Framebuffer<Fx3> = Framebuffer::new(4, 4, fx3(0, 0, 0));
    let mut db: Framebuffer<i64> = Framebuffer::new(4, 4, 0);
    let bg = fx3(6554, 6554, 6554);
    fb.clear(bg);
    db.clear(FX);
    unit_triangle(0).draw(&mut fb, &mut db, identity(), identity(), &white());
    // The -1/2 viewport scale flips both axes, so the covered half is the
    // one away from the origin: exactly the pixel centers with x + y > 3.
    let mut covered = Vec::new();
    for y in 0..4usize {
        for x in 0..4usize {
            if fb.get_pixel(x, y) != bg {
                covered.push((x, y));
            }
        }
    }
    let expected = vec![(1, 3), (2, 2), (2, 3), (3, 1), (3, 2), (3, 3)];
    let mut sorted = covered.clone();
    sorted.sort();
    assert_eq!(sorted, expected);
}

#[test]
fn drawing_twice_equals_drawing_once() {
    let mut fb1: Framebuffer<Fx3> = Framebuffer::new(8, 8, fx3(0, 0, 0));
    let mut db1: Framebuffer<i64> = Framebuffer::new(8, 8, FX);
    let t = unit_triangle(FX / 4);
    t.draw(&mut fb1, &mut db1, identity(), identity(), &white());
    let once_colors = fb1.as_buffer();

    let mut fb2: Framebuffer<Fx3> = Framebuffer::new(8, 8, fx3(0, 0, 0));
    let mut db2: Framebuffer<i64> = Framebuffer::new(8, 8, FX);
    t.draw(&mut fb2, &mut db2, identity(), identity(), &white());
    t.draw(&mut fb2, &mut db2, identity(), identity(), &white());
    assert_eq!(fb2.as_buffer(), once_colors);
}

#[test]
fn nearer_triangle_wins_in_either_draw_order() {
    let near = unit_triangle(0);
    let far = unit_triangle(FX / 2);
    let red = Material {
        base_color: Fx4 { x: FX, y: 0, z: 0, w: FX },
        base_color_texture: None,
    };

    let mut fb_ref: Framebuffer<Fx3> = Framebuffer::new(4, 4, fx3(0, 0, 0));
    let mut db_ref: Framebuffer<i64> = Framebuffer::new(4, 4, FX);
    near.draw(&mut fb_ref, &mut db_ref, identity(), identity(), &red);
    let near_alone = fb_ref.get_pixel(3, 3);

    let mut fb_a: Framebuffer<Fx3> = Framebuffer::new(4, 4, fx3(0, 0, 0));
    let mut db_a: Framebuffer<i64> = Framebuffer::new(4, 4, FX);
    near.draw(&mut fb_a, &mut db_a, identity(), identity(), &red);
    far.draw(&mut fb_a, &mut db_a, identity(), identity(), &white());

    let mut fb_b: Framebuffer<Fx3> = Framebuffer::new(4, 4, fx3(0, 0, 0));
    let mut db_b: Framebuffer<i64> = Framebuffer::new(4, 4, FX);
    far.draw(&mut fb_b, &mut db_b, identity(), identity(), &white());
    near.draw(&mut fb_b, &mut db_b, identity(), identity(), &red);

    assert_eq!(fb_a.get_pixel(3, 3), near_alone);
    assert_eq!(fb_b.get_pixel(3, 3), near_alone);
    assert_ne!(near_alone, fx3(0, 0, 0));
}

#[test]
fn fresh_depth_buffer_after_resize_does_not_occlude() {
    let near = unit_triangle(0);
    let far = unit_triangle(FX / 2);
    let mut fb: Framebuffer<Fx3> = Framebuffer::new(4, 4, fx3(0, 0, 0));
    let mut db: Framebuffer<i64> = Framebuffer::new(4, 4, FX);
    near.draw(&mut fb, &mut db, identity(), identity(), &white());
    assert_eq!(db.get_pixel(3, 3), 0);

    // The surface is replaced on resize: both buffers are made anew and
    // cleared, so the far triangle must not be blocked by stale depths.
    fb = Framebuffer::new(4, 4, fx3(0, 0, 0));
    db = Framebuffer::new(4, 4, 0);
    fb.clear(fx3(0, 0, 0));
    db.clear(FX);
    far.draw(&mut fb, &mut db, identity(), identity(), &white());
    assert_eq!(db.get_pixel(3, 3), FX / 2);
    assert_ne!(fb.get_pixel(3, 3), fx3(0, 0, 0));
}

#[test]
fn model_with_no_materials_gets_one_default() {
    let mesh = Mesh {
        vertices: vec![
            vertex(-FX, -FX, 0, FX),
            vertex(FX, -FX, 0, FX),
            vertex(-FX, FX, 0, FX),
        ],
        indices: vec![0, 1, 2],
        material_idx: 0,
    };
    let model = Model::assemble(vec![mesh], Vec::new());
    assert_eq!(model.materials.len(), 1);
    assert_eq!(model.materials[0].base_color, Fx4 { x: FX, y: FX, z: FX, w: FX });
    assert!(model.materials[0].base_color_texture.is_none());
    assert!(model.meshes[0].material_idx < model.materials.len());
}

#[test]
fn model_draw_matches_triangle_draw() {
    let mesh = Mesh {
        vertices: vec![
            vertex(-FX, -FX, 0, FX),
            vertex(FX, -FX, 0, FX),
            vertex(-FX, FX, 0, FX),
        ],
        indices: vec![0, 1, 2],
        material_idx: 0,
    };
    let model = Model::assemble(vec![mesh], Vec::new());
    let mut fb: Framebuffer<Fx3> = Framebuffer::new(4, 4, fx3(0, 0, 0));
    let mut db: Framebuffer<i64> = Framebuffer::new(4, 4, FX);
    model.draw(&mut fb, &mut db, identity(), identity());

    let mut fb2: Framebuffer<Fx3> = Framebuffer::new(4, 4, fx3(0, 0, 0));
    let mut db2: Framebuffer<i64> = Framebuffer::new(4, 4, FX);
    unit_triangle(0).draw(&mut fb2, &mut db2, identity(), identity(), &white());
    assert_eq!(fb.as_buffer(), fb2.as_buffer());
}
