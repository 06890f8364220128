//! What it is for a buffer to hold a model: the bytes that spell each value,
//! where in the buffer they have to stand, and how much of the buffer the
//! parts of a model take up.
//!
//! Nothing here is executable. The definitions serve to state that decoding
//! gives back what was written, and which bytes it needs, see
//! [`crate::laws`].

use crate::format::{
    count_of, in_bounds, FRAME_NAME_LEN, FRAME_WIDTH, MAX_QPATH, MD3_HEADER_WIDTH, MD3_MAGIC,
    SHADER_WIDTH, SURFACE_HEADER_WIDTH, TAG_WIDTH, TEX_COORD_WIDTH, TRIANGLE_WIDTH, VERTEX_WIDTH,
};
use crate::records::Record;
use crate::types::{
    Float32, Frame, FrameView, Md3HeaderView, Md3View, Shader, ShaderView, SurfaceHeaderView,
    SurfaceView, Tag, TagView, TexCoord, TexCoordView, Triangle, TriangleView, Vec3, Vertex,
};
use vstd::prelude::*;
use vstd::utf8::encode_utf8;

verus! {

/// The two bytes that spell `v`, low byte first. `v` is below `0x1_0000`.
#[verifier::opaque]
pub open spec fn u16_bytes(v: int) -> Seq<u8> {
    seq![(v % 0x100) as u8, (v / 0x100 % 0x100) as u8]
}

/// The four bytes that spell `v`, low byte first. `v` is below
/// `0x1_0000_0000`.
#[verifier::opaque]
pub open spec fn u32_bytes(v: int) -> Seq<u8> {
    seq![
        (v % 0x100) as u8,
        (v / 0x100 % 0x100) as u8,
        (v / 0x1_0000 % 0x100) as u8,
        (v / 0x100_0000 % 0x100) as u8,
    ]
}

/// The two bytes that spell `v` in two's complement, low byte first.
pub open spec fn i16_bytes(v: i16) -> Seq<u8> {
    u16_bytes(
        if v < 0 {
            v + 0x1_0000
        } else {
            v as int
        },
    )
}

/// The four bytes that spell `v` in two's complement, low byte first.
pub open spec fn i32_bytes(v: i32) -> Seq<u8> {
    u32_bytes(
        if v < 0 {
            v + 0x1_0000_0000
        } else {
            v as int
        },
    )
}

/// The four bytes of a float, low byte first.
pub open spec fn float_bytes(v: Float32) -> Seq<u8> {
    u32_bytes(v.bits as int)
}

/// The twelve bytes of a vector: `x`, `y` and `z`.
#[verifier::opaque]
pub open spec fn vec3_bytes(v: Vec3) -> Seq<u8> {
    float_bytes(v.x) + float_bytes(v.y) + float_bytes(v.z)
}

/// Whether `name` can be stored in a field of `len` bytes and read back: its
/// UTF-8 form is no longer than the field, and it holds no NUL, which would
/// end it early.
pub open spec fn name_fits(name: Seq<char>, len: int) -> bool {
    encode_utf8(name).len() <= len && forall|i: int| 0 <= i < name.len() ==> name[i] != '\0'
}

/// The `len` bytes of a name field: the UTF-8 form of `name`, then NULs to
/// the end.
#[verifier::opaque]
pub open spec fn name_bytes(name: Seq<char>, len: int) -> Seq<u8> {
    encode_utf8(name) + Seq::new((len - encode_utf8(name).len()) as nat, |i: int| 0u8)
}

/// Whether `data` stands in `bytes` at `pos`.
#[verifier::opaque]
pub open spec fn stored_at(bytes: Seq<u8>, pos: int, data: Seq<u8>) -> bool {
    in_bounds(bytes, pos, data.len() as int) && bytes.subrange(pos, pos + data.len()) == data
}

/// The bytes of a file header.
pub open spec fn md3_header_bytes(h: Md3HeaderView) -> Seq<u8> {
    i32_bytes(h.ident) + i32_bytes(h.version) + name_bytes(h.name, MAX_QPATH as int) + i32_bytes(
        h.flags,
    ) + i32_bytes(h.num_frames) + i32_bytes(h.num_tags) + i32_bytes(h.num_surfaces) + i32_bytes(
        h.num_skins,
    ) + i32_bytes(h.ofs_frames) + i32_bytes(h.ofs_tags) + i32_bytes(h.ofs_surfaces) + i32_bytes(
        h.ofs_eof,
    )
}

/// The bytes of a frame.
pub open spec fn frame_bytes(f: FrameView) -> Seq<u8> {
    vec3_bytes(f.min_bounds) + vec3_bytes(f.max_bounds) + vec3_bytes(f.local_origin) + float_bytes(
        f.radius,
    ) + name_bytes(f.name, FRAME_NAME_LEN as int)
}

/// The bytes of a tag, which has three axes.
pub open spec fn tag_bytes(t: TagView) -> Seq<u8> {
    name_bytes(t.name, MAX_QPATH as int) + vec3_bytes(t.origin) + vec3_bytes(t.axis[0])
        + vec3_bytes(t.axis[1]) + vec3_bytes(t.axis[2])
}

/// The bytes of a surface header.
pub open spec fn surface_header_bytes(h: SurfaceHeaderView) -> Seq<u8> {
    i32_bytes(h.ident) + name_bytes(h.name, MAX_QPATH as int) + i32_bytes(h.flags) + i32_bytes(
        h.num_frames,
    ) + i32_bytes(h.num_shaders) + i32_bytes(h.num_verts) + i32_bytes(h.num_triangles)
        + i32_bytes(h.ofs_triangles) + i32_bytes(h.ofs_shaders) + i32_bytes(h.ofs_st) + i32_bytes(
        h.ofs_xyznormal,
    ) + i32_bytes(h.ofs_end)
}

/// The bytes of a shader.
pub open spec fn shader_bytes(s: ShaderView) -> Seq<u8> {
    name_bytes(s.name, MAX_QPATH as int) + i32_bytes(s.shader_index)
}

/// The bytes of a triangle, which has three indices.
pub open spec fn triangle_bytes(t: TriangleView) -> Seq<u8> {
    i32_bytes(t.indexes[0]) + i32_bytes(t.indexes[1]) + i32_bytes(t.indexes[2])
}

/// The bytes of a texture coordinate, which has two parts.
pub open spec fn tex_coord_bytes(t: TexCoordView) -> Seq<u8> {
    float_bytes(t.st[0]) + float_bytes(t.st[1])
}

/// The bytes of a vertex.
pub open spec fn vertex_bytes(v: Vertex) -> Seq<u8> {
    i16_bytes(v.x) + i16_bytes(v.y) + i16_bytes(v.z) + i16_bytes(v.normal)
}

/// Whether a section of records of one kind stands in `bytes` at `pos`:
/// each of `items` can be stored, and item `i` stands `i` widths behind
/// `pos`.
pub open spec fn section_stored<T: Record>(bytes: Seq<u8>, pos: int, items: Seq<T::V>) -> bool {
    forall|i: int|
        0 <= i < items.len() ==> T::storable(#[trigger] items[i]) && stored_at(
            bytes,
            pos + i * T::width(),
            T::bytes(items[i]),
        )
}

/// Whether a vertex table stands in `bytes` at `pos`: every row has `verts`
/// vertices, and row `f` stands `f` rows behind `pos`.
pub open spec fn vertex_table_stored(
    bytes: Seq<u8>,
    pos: int,
    verts: nat,
    table: Seq<Seq<Vertex>>,
) -> bool {
    forall|f: int|
        0 <= f < table.len() ==> (#[trigger] table[f]).len() == verts && section_stored::<Vertex>(
            bytes,
            pos + f * (VERTEX_WIDTH * verts),
            table[f],
        )
}

/// Whether the surface `s` stands in `bytes` at `pos`: its header stands
/// there, each part stands where the header says, counted from `pos`, and
/// has as many items as the header counts.
pub open spec fn surface_stored(bytes: Seq<u8>, pos: int, s: SurfaceView) -> bool {
    let h = s.header;
    &&& name_fits(h.name, MAX_QPATH as int)
    &&& stored_at(bytes, pos, surface_header_bytes(h))
    &&& s.shaders.len() == count_of(h.num_shaders)
    &&& section_stored::<Shader>(bytes, pos + h.ofs_shaders, s.shaders)
    &&& s.triangles.len() == count_of(h.num_triangles)
    &&& section_stored::<Triangle>(bytes, pos + h.ofs_triangles, s.triangles)
    &&& s.tex_coords.len() == count_of(h.num_verts)
    &&& section_stored::<TexCoord>(bytes, pos + h.ofs_st, s.tex_coords)
    &&& s.vertices.len() == count_of(h.num_frames)
    &&& vertex_table_stored(bytes, pos + h.ofs_xyznormal, count_of(h.num_verts), s.vertices)
}

/// Whether `surfaces` stand in `bytes` from `pos` on, each where the one
/// before says that it ends.
pub open spec fn surfaces_stored(bytes: Seq<u8>, pos: int, surfaces: Seq<SurfaceView>) -> bool
    decreases surfaces.len(),
{
    surfaces.len() > 0 ==> surface_stored(bytes, pos, surfaces[0]) && surfaces_stored(
        bytes,
        pos + surfaces[0].header.ofs_end,
        surfaces.drop_first(),
    )
}

/// Whether `bytes` is a file of the model `m`: the header of `m` stands at
/// the start and bears the signature, each part of `m` stands where the
/// header says and has as many items as the header counts. What the buffer
/// holds elsewhere is left open, as is the order of the parts.
pub open spec fn md3_stored(bytes: Seq<u8>, m: Md3View) -> bool {
    let h = m.header;
    &&& h.ident == MD3_MAGIC
    &&& name_fits(h.name, MAX_QPATH as int)
    &&& stored_at(bytes, 0, md3_header_bytes(h))
    &&& m.frames.len() == count_of(h.num_frames)
    &&& section_stored::<Frame>(bytes, h.ofs_frames as int, m.frames)
    &&& m.tags.len() == count_of(h.num_tags)
    &&& section_stored::<Tag>(bytes, h.ofs_tags as int, m.tags)
    &&& m.surfaces.len() == count_of(h.num_surfaces)
    &&& surfaces_stored(bytes, h.ofs_surfaces as int, m.surfaces)
}

/// Whether a section of `count` records of `width` bytes each, declared at
/// `pos`, lies in the first `k` bytes of a buffer. A section of no records
/// lies there wherever it is declared.
pub open spec fn section_inside(pos: int, count: nat, width: nat, k: int) -> bool {
    count == 0 || (0 <= pos && pos + count * width <= k)
}

/// Whether a vertex table of `frames` by `verts` vertices, declared at `pos`,
/// lies in the first `k` bytes of a buffer.
pub open spec fn vertex_table_inside(pos: int, frames: nat, verts: nat, k: int) -> bool {
    frames == 0 || verts == 0 || (0 <= pos && pos + frames * (VERTEX_WIDTH * verts) <= k)
}

/// Whether the surface `s`, declared at `pos`, lies in the first `k` bytes
/// of a buffer: its header does, and so does each part that the header
/// declares.
pub open spec fn surface_inside(pos: int, s: SurfaceView, k: int) -> bool {
    let h = s.header;
    &&& 0 <= pos && pos + SURFACE_HEADER_WIDTH <= k
    &&& section_inside(pos + h.ofs_shaders, s.shaders.len(), SHADER_WIDTH as nat, k)
    &&& section_inside(pos + h.ofs_triangles, s.triangles.len(), TRIANGLE_WIDTH as nat, k)
    &&& section_inside(pos + h.ofs_st, s.tex_coords.len(), TEX_COORD_WIDTH as nat, k)
    &&& vertex_table_inside(pos + h.ofs_xyznormal, s.vertices.len(), count_of(h.num_verts), k)
}

/// Whether `surfaces`, the first declared at `pos` and each next one where
/// the one before says that it ends, all lie in the first `k` bytes of a
/// buffer.
pub open spec fn surfaces_inside(pos: int, surfaces: Seq<SurfaceView>, k: int) -> bool
    decreases surfaces.len(),
{
    surfaces.len() > 0 ==> surface_inside(pos, surfaces[0], k) && surfaces_inside(
        pos + surfaces[0].header.ofs_end,
        surfaces.drop_first(),
        k,
    )
}

/// Whether everything that the headers of `m` declare lies in the first `k`
/// bytes of a buffer: the file header, the frames, the tags and every
/// surface.
pub open spec fn md3_inside(m: Md3View, k: int) -> bool {
    let h = m.header;
    &&& MD3_HEADER_WIDTH <= k
    &&& section_inside(h.ofs_frames as int, m.frames.len(), FRAME_WIDTH as nat, k)
    &&& section_inside(h.ofs_tags as int, m.tags.len(), TAG_WIDTH as nat, k)
    &&& surfaces_inside(h.ofs_surfaces as int, m.surfaces, k)
}

} // verus!
