//! The in-memory scene: vertices, meshes, materials and the model that
//! owns them.
//!
//! All coordinates are fixed-point (`FX` units to one). The asset importer
//! lives outside the library; it hands over plain vertex, index and
//! material data and this module assembles and draws them.

use vstd::prelude::*;
use crate::fx::{FX, Fx2, Fx3, Fx4, Mat4Fx};
use crate::texture::Texture;
use crate::framebuffer::Framebuffer;

verus! {

/// Geometry coordinates are kept within this magnitude so that every
/// product in the pipeline fits its machine integer.
pub const COORD_LIMIT: i64 = 0x8000_0000;

/// One vertex: model-space position and normal, and a normalized texture
/// coordinate.
#[derive(Clone, Copy, PartialEq, Eq, Structural, Debug)]
pub struct Vertex {
    pub position: Fx3,
    pub normal: Fx3,
    pub tex_coord: Fx2,
}

impl Vertex {
    /// Every stored coordinate is within `COORD_LIMIT`.
    pub open spec fn wf(&self) -> bool {
        &&& -COORD_LIMIT <= self.position.x <= COORD_LIMIT
        &&& -COORD_LIMIT <= self.position.y <= COORD_LIMIT
        &&& -COORD_LIMIT <= self.position.z <= COORD_LIMIT
        &&& -COORD_LIMIT <= self.normal.x <= COORD_LIMIT
        &&& -COORD_LIMIT <= self.normal.y <= COORD_LIMIT
        &&& -COORD_LIMIT <= self.normal.z <= COORD_LIMIT
        &&& -COORD_LIMIT <= self.tex_coord.x <= COORD_LIMIT
        &&& -COORD_LIMIT <= self.tex_coord.y <= COORD_LIMIT
    }
}

impl Default for Vertex {
    /// The all-zero vertex.
    fn default() -> (v: Vertex)
        ensures
            v == (Vertex {
                position: Fx3 { x: 0, y: 0, z: 0 },
                normal: Fx3 { x: 0, y: 0, z: 0 },
                tex_coord: Fx2 { x: 0, y: 0 },
            }),
            v.wf(),
    {
        Vertex {
            position: Fx3 { x: 0, y: 0, z: 0 },
            normal: Fx3 { x: 0, y: 0, z: 0 },
            tex_coord: Fx2 { x: 0, y: 0 },
        }
    }
}

/// The material synthesized when a source declares none: opaque white,
/// no texture.
pub open spec fn default_material() -> Material {
    Material { base_color: Fx4 { x: FX, y: FX, z: FX, w: FX }, base_color_texture: None }
}

/// A surface description: a base color, optionally modulated by a texture.
/// Without a texture the base color alone determines the surface color.
pub struct Material {
    pub base_color: Fx4,
    pub base_color_texture: Option<Texture>,
}

impl Material {
    /// Color channels bounded, and the texture (if any) well formed.
    pub open spec fn wf(&self) -> bool {
        &&& -COORD_LIMIT <= self.base_color.x <= COORD_LIMIT
        &&& -COORD_LIMIT <= self.base_color.y <= COORD_LIMIT
        &&& -COORD_LIMIT <= self.base_color.z <= COORD_LIMIT
        &&& -COORD_LIMIT <= self.base_color.w <= COORD_LIMIT
        &&& match self.base_color_texture {
            Some(t) => t.wf(),
            None => true,
        }
    }
}

impl Default for Material {
    /// Opaque white, no texture.
    fn default() -> (m: Material)
        ensures
            m.base_color == (Fx4 { x: FX, y: FX, z: FX, w: FX }),
            m.base_color_texture is None,
            m.wf(),
    {
        Material {
            base_color: Fx4 { x: FX, y: FX, z: FX, w: FX },
            base_color_texture: None,
        }
    }
}

/// One triangle list: vertices, indices grouped in threes, and the index
/// of the material the owning model shades it with.
pub struct Mesh {
    pub vertices: Vec<Vertex>,
    pub indices: Vec<u32>,
    pub material_idx: usize,
}

impl Mesh {
    /// Indices come in whole triangles, each one valid into the vertex
    /// list, and every vertex is within bounds.
    pub open spec fn wf(&self) -> bool {
        &&& self.indices@.len() % 3 == 0
        &&& forall|i: int| 0 <= i < self.indices@.len() ==> (#[trigger] self.indices@[i]) < self.vertices@.len()
        &&& forall|i: int| 0 <= i < self.vertices@.len() ==> (#[trigger] self.vertices@[i]).wf()
    }
}

/// A loaded scene: meshes and the materials they reference, owned for the
/// rest of the run.
pub struct Model {
    pub meshes: Vec<Mesh>,
    pub materials: Vec<Material>,
}

impl Model {
    /// Meshes and materials well formed, at least one material, and every
    /// mesh's material index resolving into the material list.
    pub open spec fn wf(&self) -> bool {
        &&& self.materials@.len() >= 1
        &&& forall|i: int| 0 <= i < self.meshes@.len() ==> (#[trigger] self.meshes@[i]).wf()
        &&& forall|i: int|
            0 <= i < self.meshes@.len() ==> (#[trigger] self.meshes@[i]).material_idx
                < self.materials@.len()
        &&& forall|i: int| 0 <= i < self.materials@.len() ==> (#[trigger] self.materials@[i]).wf()
    }

    /// Put a model together from imported parts. A source that declares no
    /// materials gets exactly one synthesized default material, which
    /// every mesh then references through index zero.
    pub fn assemble(meshes: Vec<Mesh>, materials: Vec<Material>) -> (m: Model)
        requires
            forall|i: int| 0 <= i < meshes@.len() ==> (#[trigger] meshes@[i]).wf(),
            forall|i: int| 0 <= i < materials@.len() ==> (#[trigger] materials@[i]).wf(),
            materials@.len() == 0 ==> forall|i: int|
                0 <= i < meshes@.len() ==> (#[trigger] meshes@[i]).material_idx == 0,
            materials@.len() > 0 ==> forall|i: int|
                0 <= i < meshes@.len() ==> (#[trigger] meshes@[i]).material_idx < materials@.len(),
        ensures
            m.wf(),
            m.meshes == meshes,
            materials@.len() == 0 ==> m.materials@.len() == 1 && m.materials@[0]
                == default_material(),
            materials@.len() > 0 ==> m.materials == materials,
    {
        let mut materials = materials;
        if materials.len() == 0 {
            materials.push(Material::default());
        }
        Model { meshes, materials }
    }

    /// Draw every mesh, triangle by triangle in index order, into the
    /// color and depth buffers.
    pub fn draw(
        &self,
        framebuffer: &mut Framebuffer<Fx3>,
        depth_buffer: &mut Framebuffer<i64>,
        mvp: Mat4Fx,
        inv_trans_model_matrix: Mat4Fx,
    )
        requires
            self.wf(),
            crate::raster::mat_wf(mvp),
            crate::raster::mat_wf(inv_trans_model_matrix),
            old(framebuffer).wf(),
            old(depth_buffer).wf(),
            old(framebuffer).width == old(depth_buffer).width,
            old(framebuffer).height == old(depth_buffer).height,
            old(framebuffer).width <= crate::raster::MAX_DIM,
            old(framebuffer).height <= crate::raster::MAX_DIM,
        ensures
            final(framebuffer).wf(),
            final(depth_buffer).wf(),
            final(framebuffer).width == old(framebuffer).width,
            final(framebuffer).height == old(framebuffer).height,
            final(depth_buffer).width == old(depth_buffer).width,
            final(depth_buffer).height == old(depth_buffer).height,
            ({
                let r = draw_model_upto(
                    *self,
                    mvp,
                    inv_trans_model_matrix,
                    old(framebuffer).width as int,
                    old(framebuffer).height as int,
                    old(framebuffer).grid(),
                    old(depth_buffer).grid(),
                    self.meshes@.len() as nat,
                );
                final(framebuffer).grid() == r.0 && final(depth_buffer).grid() == r.1
            }),
    {
        let w = framebuffer.width();
        let h = framebuffer.height();
        let ghost wi = w as int;
        let ghost hi = h as int;
        let ghost fb0 = old(framebuffer).grid();
        let ghost db0 = old(depth_buffer).grid();
        let n_meshes = self.meshes.len();
        let mut mi: usize = 0;
        while mi < n_meshes
            invariant
                self.wf(),
                crate::raster::mat_wf(mvp),
                crate::raster::mat_wf(inv_trans_model_matrix),
                framebuffer.wf(),
                depth_buffer.wf(),
                framebuffer.width == w,
                framebuffer.height == h,
                depth_buffer.width == w,
                depth_buffer.height == h,
                w <= crate::raster::MAX_DIM,
                h <= crate::raster::MAX_DIM,
                wi == w as int,
                hi == h as int,
                n_meshes == self.meshes@.len(),
                mi <= n_meshes,
                framebuffer.grid() == draw_model_upto(
                    *self,
                    mvp,
                    inv_trans_model_matrix,
                    wi,
                    hi,
                    fb0,
                    db0,
                    mi as nat,
                ).0,
                depth_buffer.grid() == draw_model_upto(
                    *self,
                    mvp,
                    inv_trans_model_matrix,
                    wi,
                    hi,
                    fb0,
                    db0,
                    mi as nat,
                ).1,
            decreases n_meshes - mi,
        {
            let mesh = &self.meshes[mi];
            let material = &self.materials[mesh.material_idx];
            let ghost base = draw_model_upto(
                *self,
                mvp,
                inv_trans_model_matrix,
                wi,
                hi,
                fb0,
                db0,
                mi as nat,
            );
            let n_tris = mesh.indices.len() / 3;
            proof {
                assert(mesh.indices@.len() == 3 * n_tris);
            }
            let mut ti: usize = 0;
            while ti < n_tris
                invariant
                    self.wf(),
                    crate::raster::mat_wf(mvp),
                    crate::raster::mat_wf(inv_trans_model_matrix),
                    framebuffer.wf(),
                    depth_buffer.wf(),
                    framebuffer.width == w,
                    framebuffer.height == h,
                    depth_buffer.width == w,
                    depth_buffer.height == h,
                    w <= crate::raster::MAX_DIM,
                    h <= crate::raster::MAX_DIM,
                    wi == w as int,
                    hi == h as int,
                    mi < self.meshes@.len(),
                    mesh == &self.meshes@[mi as int],
                    material == &self.materials@[mesh.material_idx as int],
                    mesh.indices@.len() == 3 * n_tris,
                    mesh.indices@.len() <= usize::MAX,
                    ti <= n_tris,
                    base == draw_model_upto(
                        *self,
                        mvp,
                        inv_trans_model_matrix,
                        wi,
                        hi,
                        fb0,
                        db0,
                        mi as nat,
                    ),
                    framebuffer.grid() == draw_mesh_upto(
                        *mesh,
                        *material,
                        mvp,
                        inv_trans_model_matrix,
                        wi,
                        hi,
                        base.0,
                        base.1,
                        ti as nat,
                    ).0,
                    depth_buffer.grid() == draw_mesh_upto(
                        *mesh,
                        *material,
                        mvp,
                        inv_trans_model_matrix,
                        wi,
                        hi,
                        base.0,
                        base.1,
                        ti as nat,
                    ).1,
                decreases n_tris - ti,
            {
                let v0 = mesh.vertices[mesh.indices[ti * 3] as usize];
                let v1 = mesh.vertices[mesh.indices[ti * 3 + 1] as usize];
                let v2 = mesh.vertices[mesh.indices[ti * 3 + 2] as usize];
                let triangle = crate::raster::Triangle { vertex: [v0, v1, v2] };
                triangle.draw(
                    framebuffer,
                    depth_buffer,
                    mvp,
                    inv_trans_model_matrix,
                    material,
                );
                ti = ti + 1;
            }
            mi = mi + 1;
        }
    }
}

/// The buffers after the first `n` triangles of one mesh, drawn in index
/// order.
pub open spec fn draw_mesh_upto(
    mesh: Mesh,
    mat: Material,
    mvp: Mat4Fx,
    itm: Mat4Fx,
    w: int,
    h: int,
    fb0: Seq<Fx3>,
    db0: Seq<i64>,
    n: nat,
) -> (Seq<Fx3>, Seq<i64>)
    decreases n,
{
    if n == 0 {
        (fb0, db0)
    } else {
        let prev = draw_mesh_upto(mesh, mat, mvp, itm, w, h, fb0, db0, (n - 1) as nat);
        let k = (n - 1) as int;
        crate::raster::draw_tri_on(
            mesh.vertices@[mesh.indices@[3 * k] as int],
            mesh.vertices@[mesh.indices@[3 * k + 1] as int],
            mesh.vertices@[mesh.indices@[3 * k + 2] as int],
            mvp,
            itm,
            mat,
            w,
            h,
            prev.0,
            prev.1,
        )
    }
}

/// The buffers after the first `n` meshes of the model, each drawn whole,
/// with the material its index names.
pub open spec fn draw_model_upto(
    m: Model,
    mvp: Mat4Fx,
    itm: Mat4Fx,
    w: int,
    h: int,
    fb0: Seq<Fx3>,
    db0: Seq<i64>,
    n: nat,
) -> (Seq<Fx3>, Seq<i64>)
    decreases n,
{
    if n == 0 {
        (fb0, db0)
    } else {
        let prev = draw_model_upto(m, mvp, itm, w, h, fb0, db0, (n - 1) as nat);
        let mesh = m.meshes@[n - 1];
        draw_mesh_upto(
            mesh,
            m.materials@[mesh.material_idx as int],
            mvp,
            itm,
            w,
            h,
            prev.0,
            prev.1,
            (mesh.indices@.len() / 3) as nat,
        )
    }
}

} // verus!
