//! The MD3 layout, as functions from bytes to values.
//!
//! All integers are little-endian and all offsets count bytes. The functions
//! `i16_of`, `i32_of`, `float_of`, `vec3_of` and `name_bytes_of` say what is
//! stored at a position that is known to be inside the buffer. A function
//! whose name ends in `_at` says what reading at a position returns, which
//! is an error where the bytes are missing or a name is not text, and
//! [`md3_from`] says what decoding a whole buffer returns.

use crate::error::Md3Error;
use crate::records::Record;
use crate::types::{
    Float32, Frame, FrameView, Md3HeaderView, Md3View, Shader, ShaderView, SurfaceHeaderView,
    SurfaceView, Tag, TagView, TexCoord, TexCoordView, Triangle, TriangleView, Vec3, Vertex,
};
use vstd::prelude::*;
use vstd::utf8::{decode_utf8, valid_utf8};

verus! {

/// The signature `IDP3`, read as a little-endian 32-bit integer.
pub const MD3_MAGIC: i32 = 0x33504449;

/// Stored length of every name but a frame's.
pub const MAX_QPATH: usize = 64;

/// Stored length of a frame's name.
pub const FRAME_NAME_LEN: usize = 16;

/// Width of the file header: two integers, a name and nine integers.
pub const MD3_HEADER_WIDTH: usize = 108;

/// Width of a frame: three vectors, a radius and a name.
pub const FRAME_WIDTH: usize = 56;

/// Width of a tag: a name and four vectors.
pub const TAG_WIDTH: usize = 112;

/// Width of a surface header: an integer, a name and ten integers.
pub const SURFACE_HEADER_WIDTH: usize = 108;

/// Width of a shader: a name and an integer.
pub const SHADER_WIDTH: usize = 68;

/// Width of a triangle: three integers.
pub const TRIANGLE_WIDTH: usize = 12;

/// Width of a texture coordinate: two floats.
pub const TEX_COORD_WIDTH: usize = 8;

/// Width of a vertex: four 16-bit integers.
pub const VERTEX_WIDTH: usize = 8;

/// Whether the `width` bytes that start at `pos` all lie inside `bytes`.
pub open spec fn in_bounds(bytes: Seq<u8>, pos: int, width: int) -> bool {
    0 <= pos && pos + width <= bytes.len()
}

/// The unsigned number that the first two bytes of `b` spell, low byte first.
pub open spec fn le_u16(b: Seq<u8>) -> int {
    b[0] as int + 0x100 * b[1] as int
}

/// The unsigned number that the first four bytes of `b` spell, low byte first.
pub open spec fn le_u32(b: Seq<u8>) -> int {
    b[0] as int + 0x100 * b[1] as int + 0x1_0000 * b[2] as int + 0x100_0000 * b[3] as int
}

/// The first two bytes of `b` as a two's-complement number, low byte first.
pub open spec fn le_i16(b: Seq<u8>) -> int {
    if le_u16(b) < 0x8000 {
        le_u16(b)
    } else {
        le_u16(b) - 0x1_0000
    }
}

/// The first four bytes of `b` as a two's-complement number, low byte first.
pub open spec fn le_i32(b: Seq<u8>) -> int {
    if le_u32(b) < 0x8000_0000 {
        le_u32(b)
    } else {
        le_u32(b) - 0x1_0000_0000
    }
}

/// The 16-bit integer stored at `pos`.
pub open spec fn i16_of(bytes: Seq<u8>, pos: int) -> i16 {
    le_i16(bytes.subrange(pos, pos + 2)) as i16
}

/// The 32-bit integer stored at `pos`.
pub open spec fn i32_of(bytes: Seq<u8>, pos: int) -> i32 {
    le_i32(bytes.subrange(pos, pos + 4)) as i32
}

/// The float stored at `pos`.
pub open spec fn float_of(bytes: Seq<u8>, pos: int) -> Float32 {
    Float32 { bits: le_u32(bytes.subrange(pos, pos + 4)) as u32 }
}

/// The vector stored at `pos`: `x`, `y` and `z`, one after another.
pub open spec fn vec3_of(bytes: Seq<u8>, pos: int) -> Vec3 {
    Vec3 { x: float_of(bytes, pos), y: float_of(bytes, pos + 4), z: float_of(bytes, pos + 8) }
}

/// Index of the first NUL in `field`, or its length where it holds none.
pub open spec fn nul_index(field: Seq<u8>) -> int
    decreases field.len(),
{
    if field.len() == 0 || field[0] == 0 {
        0
    } else {
        1 + nul_index(field.drop_first())
    }
}

/// The bytes of the name stored in the `len` bytes at `pos`: those before the
/// first NUL.
pub open spec fn name_bytes_of(bytes: Seq<u8>, pos: int, len: int) -> Seq<u8> {
    let field = bytes.subrange(pos, pos + len);
    field.take(nul_index(field))
}

/// What reading a 16-bit integer at `pos` returns.
pub open spec fn i16_at(bytes: Seq<u8>, pos: int) -> Result<i16, Md3Error> {
    if in_bounds(bytes, pos, 2) {
        Ok(i16_of(bytes, pos))
    } else {
        Err(Md3Error::UnexpectedEof)
    }
}

/// What reading a 32-bit integer at `pos` returns.
pub open spec fn i32_at(bytes: Seq<u8>, pos: int) -> Result<i32, Md3Error> {
    if in_bounds(bytes, pos, 4) {
        Ok(i32_of(bytes, pos))
    } else {
        Err(Md3Error::UnexpectedEof)
    }
}

/// What reading a float at `pos` returns.
pub open spec fn float_at(bytes: Seq<u8>, pos: int) -> Result<Float32, Md3Error> {
    if in_bounds(bytes, pos, 4) {
        Ok(float_of(bytes, pos))
    } else {
        Err(Md3Error::UnexpectedEof)
    }
}

/// What reading a vector at `pos` returns.
pub open spec fn vec3_at(bytes: Seq<u8>, pos: int) -> Result<Vec3, Md3Error> {
    if in_bounds(bytes, pos, 12) {
        Ok(vec3_of(bytes, pos))
    } else {
        Err(Md3Error::UnexpectedEof)
    }
}

/// What reading a name of stored length `len` at `pos` returns: the text
/// before the first NUL, where all `len` bytes are there and that text is
/// UTF-8.
pub open spec fn string_at(bytes: Seq<u8>, pos: int, len: int) -> Result<Seq<char>, Md3Error> {
    if !in_bounds(bytes, pos, len) {
        Err(Md3Error::UnexpectedEof)
    } else if !valid_utf8(name_bytes_of(bytes, pos, len)) {
        Err(Md3Error::InvalidEncoding)
    } else {
        Ok(decode_utf8(name_bytes_of(bytes, pos, len)))
    }
}

/// What reading a record with one name returns. The name ends `name_end`
/// bytes into the record and the record is `width` bytes wide: the fields up
/// to the name must be there, then the name must be text, then the rest must
/// be there.
pub open spec fn named_record<V>(
    bytes: Seq<u8>,
    pos: int,
    name_end: int,
    width: int,
    name: Result<Seq<char>, Md3Error>,
    record: V,
) -> Result<V, Md3Error> {
    if !in_bounds(bytes, pos, name_end) {
        Err(Md3Error::UnexpectedEof)
    } else if name is Err {
        Err(name->Err_0)
    } else if !in_bounds(bytes, pos, width) {
        Err(Md3Error::UnexpectedEof)
    } else {
        Ok(record)
    }
}

/// What reading the file header at `pos` returns.
pub open spec fn md3_header_at(bytes: Seq<u8>, pos: int) -> Result<Md3HeaderView, Md3Error> {
    let name = string_at(bytes, pos + 8, MAX_QPATH as int);
    named_record(
        bytes,
        pos,
        72,
        MD3_HEADER_WIDTH as int,
        name,
        Md3HeaderView {
            ident: i32_of(bytes, pos),
            version: i32_of(bytes, pos + 4),
            name: name->Ok_0,
            flags: i32_of(bytes, pos + 72),
            num_frames: i32_of(bytes, pos + 76),
            num_tags: i32_of(bytes, pos + 80),
            num_surfaces: i32_of(bytes, pos + 84),
            num_skins: i32_of(bytes, pos + 88),
            ofs_frames: i32_of(bytes, pos + 92),
            ofs_tags: i32_of(bytes, pos + 96),
            ofs_surfaces: i32_of(bytes, pos + 100),
            ofs_eof: i32_of(bytes, pos + 104),
        },
    )
}

/// What reading a frame at `pos` returns.
pub open spec fn frame_at(bytes: Seq<u8>, pos: int) -> Result<FrameView, Md3Error> {
    let name = string_at(bytes, pos + 40, FRAME_NAME_LEN as int);
    named_record(
        bytes,
        pos,
        FRAME_WIDTH as int,
        FRAME_WIDTH as int,
        name,
        FrameView {
            min_bounds: vec3_of(bytes, pos),
            max_bounds: vec3_of(bytes, pos + 12),
            local_origin: vec3_of(bytes, pos + 24),
            radius: float_of(bytes, pos + 36),
            name: name->Ok_0,
        },
    )
}

/// What reading a tag at `pos` returns.
pub open spec fn tag_at(bytes: Seq<u8>, pos: int) -> Result<TagView, Md3Error> {
    let name = string_at(bytes, pos, MAX_QPATH as int);
    named_record(
        bytes,
        pos,
        MAX_QPATH as int,
        TAG_WIDTH as int,
        name,
        TagView {
            name: name->Ok_0,
            origin: vec3_of(bytes, pos + 64),
            axis: seq![
                vec3_of(bytes, pos + 76),
                vec3_of(bytes, pos + 88),
                vec3_of(bytes, pos + 100),
            ],
        },
    )
}

/// What reading a surface header at `pos` returns.
pub open spec fn surface_header_at(bytes: Seq<u8>, pos: int) -> Result<
    SurfaceHeaderView,
    Md3Error,
> {
    let name = string_at(bytes, pos + 4, MAX_QPATH as int);
    named_record(
        bytes,
        pos,
        68,
        SURFACE_HEADER_WIDTH as int,
        name,
        SurfaceHeaderView {
            ident: i32_of(bytes, pos),
            name: name->Ok_0,
            flags: i32_of(bytes, pos + 68),
            num_frames: i32_of(bytes, pos + 72),
            num_shaders: i32_of(bytes, pos + 76),
            num_verts: i32_of(bytes, pos + 80),
            num_triangles: i32_of(bytes, pos + 84),
            ofs_triangles: i32_of(bytes, pos + 88),
            ofs_shaders: i32_of(bytes, pos + 92),
            ofs_st: i32_of(bytes, pos + 96),
            ofs_xyznormal: i32_of(bytes, pos + 100),
            ofs_end: i32_of(bytes, pos + 104),
        },
    )
}

/// What reading a shader at `pos` returns.
pub open spec fn shader_at(bytes: Seq<u8>, pos: int) -> Result<ShaderView, Md3Error> {
    let name = string_at(bytes, pos, MAX_QPATH as int);
    named_record(
        bytes,
        pos,
        MAX_QPATH as int,
        SHADER_WIDTH as int,
        name,
        ShaderView { name: name->Ok_0, shader_index: i32_of(bytes, pos + 64) },
    )
}

/// What reading a triangle at `pos` returns.
pub open spec fn triangle_at(bytes: Seq<u8>, pos: int) -> Result<TriangleView, Md3Error> {
    if in_bounds(bytes, pos, TRIANGLE_WIDTH as int) {
        Ok(
            TriangleView {
                indexes: seq![i32_of(bytes, pos), i32_of(bytes, pos + 4), i32_of(bytes, pos + 8)],
            },
        )
    } else {
        Err(Md3Error::UnexpectedEof)
    }
}

/// What reading a texture coordinate at `pos` returns.
pub open spec fn tex_coord_at(bytes: Seq<u8>, pos: int) -> Result<TexCoordView, Md3Error> {
    if in_bounds(bytes, pos, TEX_COORD_WIDTH as int) {
        Ok(TexCoordView { st: seq![float_of(bytes, pos), float_of(bytes, pos + 4)] })
    } else {
        Err(Md3Error::UnexpectedEof)
    }
}

/// What reading a vertex at `pos` returns.
pub open spec fn vertex_at(bytes: Seq<u8>, pos: int) -> Result<Vertex, Md3Error> {
    if in_bounds(bytes, pos, VERTEX_WIDTH as int) {
        Ok(
            Vertex {
                x: i16_of(bytes, pos),
                y: i16_of(bytes, pos + 2),
                z: i16_of(bytes, pos + 4),
                normal: i16_of(bytes, pos + 6),
            },
        )
    } else {
        Err(Md3Error::UnexpectedEof)
    }
}

/// How many records a header's count field asks for. A negative count asks
/// for more than any buffer holds, so that reading them runs into the first
/// record that fails.
pub open spec fn count_of(n: i32) -> nat {
    if n >= 0 {
        n as nat
    } else {
        usize::MAX as nat
    }
}

/// `items` in front of what `rest` holds, or the error of `rest`.
pub open spec fn prepend<V>(items: Seq<V>, rest: Result<Seq<V>, Md3Error>) -> Result<
    Seq<V>,
    Md3Error,
> {
    match rest {
        Ok(more) => Ok(items + more),
        Err(e) => Err(e),
    }
}

/// What reading `count` records of one kind returns, the first at `pos` and
/// each next one where the one before ended: the records in that order, or
/// the error of the first that fails.
pub open spec fn many_at<T: Record>(bytes: Seq<u8>, pos: int, count: nat) -> Result<
    Seq<T::V>,
    Md3Error,
>
    decreases count,
{
    if count == 0 {
        Ok(Seq::empty())
    } else {
        match T::at(bytes, pos) {
            Ok(first) => prepend(
                seq![first],
                many_at::<T>(bytes, pos + T::width(), (count - 1) as nat),
            ),
            Err(e) => Err(e),
        }
    }
}

/// What reading a vertex table at `pos` returns: for each of `frames` frames,
/// one after another, its `verts` vertices.
pub open spec fn vertex_frames_at(bytes: Seq<u8>, pos: int, frames: nat, verts: nat) -> Result<
    Seq<Seq<Vertex>>,
    Md3Error,
>
    decreases frames,
{
    if frames == 0 {
        Ok(Seq::empty())
    } else {
        match many_at::<Vertex>(bytes, pos, verts) {
            Ok(first) => prepend(
                seq![first],
                vertex_frames_at(bytes, pos + VERTEX_WIDTH * verts, (frames - 1) as nat, verts),
            ),
            Err(e) => Err(e),
        }
    }
}

/// What reading a surface at `pos` returns. The header stands at `pos`, and
/// its four offsets, counted from `pos`, say where the shaders, the
/// triangles, the texture coordinates and the vertex table stand. They are
/// read in that order, and the first error is the surface's.
#[verifier::opaque]
pub open spec fn surface_at(bytes: Seq<u8>, pos: int) -> Result<SurfaceView, Md3Error> {
    match surface_header_at(bytes, pos) {
        Err(e) => Err(e),
        Ok(header) => match many_at::<Shader>(
            bytes,
            pos + header.ofs_shaders,
            count_of(header.num_shaders),
        ) {
            Err(e) => Err(e),
            Ok(shaders) => match many_at::<Triangle>(
                bytes,
                pos + header.ofs_triangles,
                count_of(header.num_triangles),
            ) {
                Err(e) => Err(e),
                Ok(triangles) => match many_at::<TexCoord>(
                    bytes,
                    pos + header.ofs_st,
                    count_of(header.num_verts),
                ) {
                    Err(e) => Err(e),
                    Ok(tex_coords) => match vertex_frames_at(
                        bytes,
                        pos + header.ofs_xyznormal,
                        count_of(header.num_frames),
                        count_of(header.num_verts),
                    ) {
                        Err(e) => Err(e),
                        Ok(vertices) => Ok(
                            SurfaceView { header, shaders, triangles, tex_coords, vertices },
                        ),
                    },
                },
            },
        }
    }
}

/// What reading `count` surfaces returns, the first at `pos` and each next
/// one `ofs_end` bytes behind the start of the one before.
pub open spec fn surfaces_at(bytes: Seq<u8>, pos: int, count: nat) -> Result<
    Seq<SurfaceView>,
    Md3Error,
>
    decreases count,
{
    if count == 0 {
        Ok(Seq::empty())
    } else {
        match surface_at(bytes, pos) {
            Ok(first) => prepend(
                seq![first],
                surfaces_at(bytes, pos + first.header.ofs_end, (count - 1) as nat),
            ),
            Err(e) => Err(e),
        }
    }
}

/// Where the cursor stands after `count` surfaces were read from `pos`: behind
/// the last of them, as far as they could be read.
pub open spec fn surfaces_end(bytes: Seq<u8>, pos: int, count: nat) -> int
    decreases count,
{
    if count == 0 {
        pos
    } else {
        match surface_at(bytes, pos) {
            Ok(first) => surfaces_end(bytes, pos + first.header.ofs_end, (count - 1) as nat),
            Err(_) => pos,
        }
    }
}

/// What decoding `bytes` returns. The signature comes first. Then the header
/// is read from the start, and its offsets, counted from the start, say
/// where the frames, the tags and the first surface stand. They are read in
/// that order, and the first error is the file's. The tags are `num_tags`
/// records from `ofs_tags`, however many frames there are.
pub open spec fn md3_from(bytes: Seq<u8>) -> Result<Md3View, Md3Error> {
    if !in_bounds(bytes, 0, 4) {
        Err(Md3Error::UnexpectedEof)
    } else if i32_of(bytes, 0) != MD3_MAGIC {
        Err(Md3Error::InvalidMagic)
    } else {
        match md3_header_at(bytes, 0) {
            Err(e) => Err(e),
            Ok(header) => match many_at::<Frame>(
                bytes,
                header.ofs_frames as int,
                count_of(header.num_frames),
            ) {
                Err(e) => Err(e),
                Ok(frames) => match many_at::<Tag>(
                    bytes,
                    header.ofs_tags as int,
                    count_of(header.num_tags),
                ) {
                    Err(e) => Err(e),
                    Ok(tags) => match surfaces_at(
                        bytes,
                        header.ofs_surfaces as int,
                        count_of(header.num_surfaces),
                    ) {
                        Err(e) => Err(e),
                        Ok(surfaces) => Ok(Md3View { header, frames, tags, surfaces }),
                    },
                },
            },
        }
    }
}

} // verus!
