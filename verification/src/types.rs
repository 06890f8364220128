//! The decoded model and its records.
//!
//! Every type has a deep view, which is what the contracts speak of: a
//! `String` becomes its `Seq<char>`, a `Vec` or an array the `Seq` of its
//! items' views. The types without a name or a collection are their own
//! views.

use vstd::prelude::*;

verus! {

/// An IEEE-754 single-precision number, kept as its 32 bits.
///
/// Decoding passes the bits through untouched; `f32::from_bits` turns them
/// into the number.
#[derive(Debug, Clone, Copy, PartialEq, Eq)]
pub struct Float32 {
    pub bits: u32,
}

/// Three single-precision coordinates.
#[derive(Debug, Clone, Copy, PartialEq, Eq)]
pub struct Vec3 {
    pub x: Float32,
    pub y: Float32,
    pub z: Float32,
}

/// The header at the start of a file.
#[derive(Debug, PartialEq, Eq)]
pub struct Md3Header {
    pub ident: i32,
    pub version: i32,
    pub name: String,
    pub flags: i32,
    pub num_frames: i32,
    pub num_tags: i32,
    pub num_surfaces: i32,
    pub num_skins: i32,
    pub ofs_frames: i32,
    pub ofs_tags: i32,
    pub ofs_surfaces: i32,
    pub ofs_eof: i32,
}

/// One keyframe: its bounding box, origin, bounding radius and name.
#[derive(Debug, PartialEq, Eq)]
pub struct Frame {
    pub min_bounds: Vec3,
    pub max_bounds: Vec3,
    pub local_origin: Vec3,
    pub radius: Float32,
    pub name: String,
}

/// A named attachment point: an origin and the three rows of its orientation.
#[derive(Debug, PartialEq, Eq)]
pub struct Tag {
    pub name: String,
    pub origin: Vec3,
    pub axis: [Vec3; 3],
}

/// The header at the start of a surface. Its offsets count from that start.
#[derive(Debug, PartialEq, Eq)]
pub struct SurfaceHeader {
    pub ident: i32,
    pub name: String,
    pub flags: i32,
    pub num_frames: i32,
    pub num_shaders: i32,
    pub num_verts: i32,
    pub num_triangles: i32,
    pub ofs_triangles: i32,
    pub ofs_shaders: i32,
    pub ofs_st: i32,
    pub ofs_xyznormal: i32,
    pub ofs_end: i32,
}

/// A shader's name and the index the renderer gave it.
#[derive(Debug, PartialEq, Eq)]
pub struct Shader {
    pub name: String,
    pub shader_index: i32,
}

/// Three indices into a frame's vertices.
#[derive(Debug, PartialEq, Eq)]
pub struct Triangle {
    pub indexes: [i32; 3],
}

/// A texture coordinate, `s` then `t`.
#[derive(Debug, PartialEq, Eq)]
pub struct TexCoord {
    pub st: [Float32; 2],
}

/// A vertex: a fixed-point position and a packed normal, both left as stored.
#[derive(Debug, Clone, Copy, PartialEq, Eq)]
pub struct Vertex {
    pub x: i16,
    pub y: i16,
    pub z: i16,
    pub normal: i16,
}

/// One mesh of a model. `vertices[f][v]` is vertex `v` in frame `f`.
#[derive(Debug, PartialEq, Eq)]
pub struct Surface {
    pub header: SurfaceHeader,
    pub shaders: Vec<Shader>,
    pub triangles: Vec<Triangle>,
    pub tex_coords: Vec<TexCoord>,
    pub vertices: Vec<Vec<Vertex>>,
}

/// A decoded model.
///
/// `tags` holds the `num_tags` tags that stand at `ofs_tags`, and no more. A
/// file that stores one such run of tags for every frame, one behind
/// another, gives the tags of its first frame only.
#[derive(Debug, PartialEq, Eq)]
pub struct Md3 {
    pub header: Md3Header,
    pub frames: Vec<Frame>,
    pub tags: Vec<Tag>,
    pub surfaces: Vec<Surface>,
}

/// The view of an [`Md3Header`].
pub struct Md3HeaderView {
    pub ident: i32,
    pub version: i32,
    pub name: Seq<char>,
    pub flags: i32,
    pub num_frames: i32,
    pub num_tags: i32,
    pub num_surfaces: i32,
    pub num_skins: i32,
    pub ofs_frames: i32,
    pub ofs_tags: i32,
    pub ofs_surfaces: i32,
    pub ofs_eof: i32,
}

/// The view of a [`Frame`].
pub struct FrameView {
    pub min_bounds: Vec3,
    pub max_bounds: Vec3,
    pub local_origin: Vec3,
    pub radius: Float32,
    pub name: Seq<char>,
}

/// The view of a [`Tag`].
pub struct TagView {
    pub name: Seq<char>,
    pub origin: Vec3,
    pub axis: Seq<Vec3>,
}

/// The view of a [`SurfaceHeader`].
pub struct SurfaceHeaderView {
    pub ident: i32,
    pub name: Seq<char>,
    pub flags: i32,
    pub num_frames: i32,
    pub num_shaders: i32,
    pub num_verts: i32,
    pub num_triangles: i32,
    pub ofs_triangles: i32,
    pub ofs_shaders: i32,
    pub ofs_st: i32,
    pub ofs_xyznormal: i32,
    pub ofs_end: i32,
}

/// The view of a [`Shader`].
pub struct ShaderView {
    pub name: Seq<char>,
    pub shader_index: i32,
}

/// The view of a [`Triangle`].
pub struct TriangleView {
    pub indexes: Seq<i32>,
}

/// The view of a [`TexCoord`].
pub struct TexCoordView {
    pub st: Seq<Float32>,
}

/// The view of a [`Surface`].
pub struct SurfaceView {
    pub header: SurfaceHeaderView,
    pub shaders: Seq<ShaderView>,
    pub triangles: Seq<TriangleView>,
    pub tex_coords: Seq<TexCoordView>,
    pub vertices: Seq<Seq<Vertex>>,
}

/// The view of an [`Md3`].
pub struct Md3View {
    pub header: Md3HeaderView,
    pub frames: Seq<FrameView>,
    pub tags: Seq<TagView>,
    pub surfaces: Seq<SurfaceView>,
}

impl DeepView for Float32 {
    type V = Float32;

    open spec fn deep_view(&self) -> Float32 {
        *self
    }
}

impl DeepView for Vec3 {
    type V = Vec3;

    open spec fn deep_view(&self) -> Vec3 {
        *self
    }
}

impl DeepView for Vertex {
    type V = Vertex;

    open spec fn deep_view(&self) -> Vertex {
        *self
    }
}

impl DeepView for Md3Header {
    type V = Md3HeaderView;

    open spec fn deep_view(&self) -> Md3HeaderView {
        Md3HeaderView {
            ident: self.ident,
            version: self.version,
            name: self.name@,
            flags: self.flags,
            num_frames: self.num_frames,
            num_tags: self.num_tags,
            num_surfaces: self.num_surfaces,
            num_skins: self.num_skins,
            ofs_frames: self.ofs_frames,
            ofs_tags: self.ofs_tags,
            ofs_surfaces: self.ofs_surfaces,
            ofs_eof: self.ofs_eof,
        }
    }
}

impl DeepView for Frame {
    type V = FrameView;

    open spec fn deep_view(&self) -> FrameView {
        FrameView {
            min_bounds: self.min_bounds,
            max_bounds: self.max_bounds,
            local_origin: self.local_origin,
            radius: self.radius,
            name: self.name@,
        }
    }
}

impl DeepView for Tag {
    type V = TagView;

    open spec fn deep_view(&self) -> TagView {
        TagView { name: self.name@, origin: self.origin, axis: self.axis@ }
    }
}

impl DeepView for SurfaceHeader {
    type V = SurfaceHeaderView;

    open spec fn deep_view(&self) -> SurfaceHeaderView {
        SurfaceHeaderView {
            ident: self.ident,
            name: self.name@,
            flags: self.flags,
            num_frames: self.num_frames,
            num_shaders: self.num_shaders,
            num_verts: self.num_verts,
            num_triangles: self.num_triangles,
            ofs_triangles: self.ofs_triangles,
            ofs_shaders: self.ofs_shaders,
            ofs_st: self.ofs_st,
            ofs_xyznormal: self.ofs_xyznormal,
            ofs_end: self.ofs_end,
        }
    }
}

impl DeepView for Shader {
    type V = ShaderView;

    open spec fn deep_view(&self) -> ShaderView {
        ShaderView { name: self.name@, shader_index: self.shader_index }
    }
}

impl DeepView for Triangle {
    type V = TriangleView;

    open spec fn deep_view(&self) -> TriangleView {
        TriangleView { indexes: self.indexes@ }
    }
}

impl DeepView for TexCoord {
    type V = TexCoordView;

    open spec fn deep_view(&self) -> TexCoordView {
        TexCoordView { st: self.st@ }
    }
}

impl DeepView for Surface {
    type V = SurfaceView;

    open spec fn deep_view(&self) -> SurfaceView {
        SurfaceView {
            header: self.header.deep_view(),
            shaders: self.shaders.deep_view(),
            triangles: self.triangles.deep_view(),
            tex_coords: self.tex_coords.deep_view(),
            vertices: self.vertices.deep_view(),
        }
    }
}

impl DeepView for Md3 {
    type V = Md3View;

    open spec fn deep_view(&self) -> Md3View {
        Md3View {
            header: self.header.deep_view(),
            frames: self.frames.deep_view(),
            tags: self.tags.deep_view(),
            surfaces: self.surfaces.deep_view(),
        }
    }
}

} // verus!
