//! The record decoders: each reads one record of fixed width, field by field.

use crate::error::Md3Error;
use crate::format::{
    frame_at, in_bounds, md3_header_at, shader_at, surface_header_at, tag_at, tex_coord_at,
    triangle_at, vertex_at, FRAME_NAME_LEN, FRAME_WIDTH, MAX_QPATH, MD3_HEADER_WIDTH,
    SHADER_WIDTH, SURFACE_HEADER_WIDTH, TAG_WIDTH, TEX_COORD_WIDTH, TRIANGLE_WIDTH, VERTEX_WIDTH,
};
use crate::laws::{
    cut_short, lemma_cut_keeps_fields, lemma_frame_read_back, lemma_shader_read_back,
    lemma_tag_read_back, lemma_tex_coord_read_back, lemma_triangle_read_back,
    lemma_vertex_read_back,
};
use crate::layout::{
    frame_bytes, name_fits, shader_bytes, stored_at, tag_bytes, tex_coord_bytes, triangle_bytes,
    vertex_bytes,
};
use crate::reader::{outcome, Reader};
use crate::types::{
    Frame, FrameView, Md3Header, Shader, ShaderView, SurfaceHeader, Tag, TagView, TexCoord,
    TexCoordView, Triangle, TriangleView, Vertex,
};
use vstd::prelude::*;

verus! {

/// A record of fixed width that a section holds many of.
pub trait Record: DeepView + Sized {
    /// The stored width of a record, in bytes.
    spec fn width() -> nat;

    /// What reading a record at `pos` returns.
    spec fn at(bytes: Seq<u8>, pos: int) -> Result<Self::V, Md3Error>;

    /// Whether `record` can be stored and read back: its name fits its
    /// field, and it has as many parts as a record of its kind has.
    spec fn storable(record: Self::V) -> bool;

    /// The bytes of `record` as a file holds them.
    spec fn bytes(record: Self::V) -> Seq<u8>;

    /// Reads a record at the cursor and moves the cursor past it.
    fn read(reader: &mut Reader) -> (r: Result<Self, Md3Error>)
        ensures
            outcome(r) == Self::at(old(reader)@.bytes, old(reader)@.pos),
            final(reader)@ == old(reader)@.after(Self::width() as int, r is Ok),
    ;

    /// A record that can be read lies inside the buffer. Read from the first
    /// `k` bytes of the buffer, it is the same where it lies inside those, and
    /// the read fails for want of bytes where it does not.
    proof fn lemma_cut_short(bytes: Seq<u8>, k: int, pos: int)
        requires
            0 <= k <= bytes.len(),
        ensures
            cut_short(Self::at(bytes, pos), Self::at(bytes.take(k), pos)),
            Self::at(bytes, pos) is Ok ==> in_bounds(bytes, pos, Self::width() as int),
            in_bounds(bytes.take(k), pos, Self::width() as int) ==> Self::at(bytes.take(k), pos)
                == Self::at(bytes, pos),
            Self::at(bytes, pos) is Ok && !in_bounds(bytes.take(k), pos, Self::width() as int)
                ==> Self::at(bytes.take(k), pos) == Err::<Self::V, Md3Error>(
                Md3Error::UnexpectedEof,
            ),
    ;

    /// A record that was stored is read back as it was.
    proof fn lemma_read_back(bytes: Seq<u8>, pos: int, record: Self::V)
        requires
            Self::storable(record),
            stored_at(bytes, pos, Self::bytes(record)),
        ensures
            Self::at(bytes, pos) == Ok::<Self::V, Md3Error>(record),
    ;
}

impl<'a> Reader<'a> {
    /// Reads the file header and moves the cursor past it.
    pub fn read_md3_header(&mut self) -> (r: Result<Md3Header, Md3Error>)
        ensures
            outcome(r) == md3_header_at(old(self)@.bytes, old(self)@.pos),
            final(self)@ == old(self)@.after(MD3_HEADER_WIDTH as int, r is Ok),
    {
        let mut cur = *self;
        let ident = cur.read_s32()?;
        let version = cur.read_s32()?;
        let name = cur.read_string(MAX_QPATH)?;
        let flags = cur.read_s32()?;
        let num_frames = cur.read_s32()?;
        let num_tags = cur.read_s32()?;
        let num_surfaces = cur.read_s32()?;
        let num_skins = cur.read_s32()?;
        let ofs_frames = cur.read_s32()?;
        let ofs_tags = cur.read_s32()?;
        let ofs_surfaces = cur.read_s32()?;
        let ofs_eof = cur.read_s32()?;
        *self = cur;
        Ok(
            Md3Header {
                ident,
                version,
                name,
                flags,
                num_frames,
                num_tags,
                num_surfaces,
                num_skins,
                ofs_frames,
                ofs_tags,
                ofs_surfaces,
                ofs_eof,
            },
        )
    }

    /// Reads a frame and moves the cursor past it.
    pub fn read_frame(&mut self) -> (r: Result<Frame, Md3Error>)
        ensures
            outcome(r) == frame_at(old(self)@.bytes, old(self)@.pos),
            final(self)@ == old(self)@.after(FRAME_WIDTH as int, r is Ok),
    {
        let mut cur = *self;
        let min_bounds = cur.read_vec3()?;
        let max_bounds = cur.read_vec3()?;
        let local_origin = cur.read_vec3()?;
        let radius = cur.read_f32()?;
        let name = cur.read_string(FRAME_NAME_LEN)?;
        *self = cur;
        Ok(Frame { min_bounds, max_bounds, local_origin, radius, name })
    }

    /// Reads a tag and moves the cursor past it.
    pub fn read_tag(&mut self) -> (r: Result<Tag, Md3Error>)
        ensures
            outcome(r) == tag_at(old(self)@.bytes, old(self)@.pos),
            final(self)@ == old(self)@.after(TAG_WIDTH as int, r is Ok),
    {
        let mut cur = *self;
        let name = cur.read_string(MAX_QPATH)?;
        let origin = cur.read_vec3()?;
        let axis0 = cur.read_vec3()?;
        let axis1 = cur.read_vec3()?;
        let axis2 = cur.read_vec3()?;
        *self = cur;
        Ok(Tag { name, origin, axis: [axis0, axis1, axis2] })
    }

    /// Reads a surface header and moves the cursor past it.
    pub fn read_surface_header(&mut self) -> (r: Result<SurfaceHeader, Md3Error>)
        ensures
            outcome(r) == surface_header_at(old(self)@.bytes, old(self)@.pos),
            final(self)@ == old(self)@.after(SURFACE_HEADER_WIDTH as int, r is Ok),
    {
        let mut cur = *self;
        let ident = cur.read_s32()?;
        let name = cur.read_string(MAX_QPATH)?;
        let flags = cur.read_s32()?;
        let num_frames = cur.read_s32()?;
        let num_shaders = cur.read_s32()?;
        let num_verts = cur.read_s32()?;
        let num_triangles = cur.read_s32()?;
        let ofs_triangles = cur.read_s32()?;
        let ofs_shaders = cur.read_s32()?;
        let ofs_st = cur.read_s32()?;
        let ofs_xyznormal = cur.read_s32()?;
        let ofs_end = cur.read_s32()?;
        *self = cur;
        Ok(
            SurfaceHeader {
                ident,
                name,
                flags,
                num_frames,
                num_shaders,
                num_verts,
                num_triangles,
                ofs_triangles,
                ofs_shaders,
                ofs_st,
                ofs_xyznormal,
                ofs_end,
            },
        )
    }

    /// Reads a shader and moves the cursor past it.
    pub fn read_shader(&mut self) -> (r: Result<Shader, Md3Error>)
        ensures
            outcome(r) == shader_at(old(self)@.bytes, old(self)@.pos),
            final(self)@ == old(self)@.after(SHADER_WIDTH as int, r is Ok),
    {
        let mut cur = *self;
        let name = cur.read_string(MAX_QPATH)?;
        let shader_index = cur.read_s32()?;
        *self = cur;
        Ok(Shader { name, shader_index })
    }

    /// Reads a triangle and moves the cursor past it.
    pub fn read_triangle(&mut self) -> (r: Result<Triangle, Md3Error>)
        ensures
            outcome(r) == triangle_at(old(self)@.bytes, old(self)@.pos),
            final(self)@ == old(self)@.after(TRIANGLE_WIDTH as int, r is Ok),
    {
        let mut cur = *self;
        let a = cur.read_s32()?;
        let b = cur.read_s32()?;
        let c = cur.read_s32()?;
        *self = cur;
        Ok(Triangle { indexes: [a, b, c] })
    }

    /// Reads a texture coordinate and moves the cursor past it.
    pub fn read_tex_coord(&mut self) -> (r: Result<TexCoord, Md3Error>)
        ensures
            outcome(r) == tex_coord_at(old(self)@.bytes, old(self)@.pos),
            final(self)@ == old(self)@.after(TEX_COORD_WIDTH as int, r is Ok),
    {
        let mut cur = *self;
        let s = cur.read_f32()?;
        let t = cur.read_f32()?;
        *self = cur;
        Ok(TexCoord { st: [s, t] })
    }

    /// Reads a vertex and moves the cursor past it.
    pub fn read_vertex(&mut self) -> (r: Result<Vertex, Md3Error>)
        ensures
            outcome(r) == vertex_at(old(self)@.bytes, old(self)@.pos),
            final(self)@ == old(self)@.after(VERTEX_WIDTH as int, r is Ok),
    {
        let mut cur = *self;
        let x = cur.read_s16()?;
        let y = cur.read_s16()?;
        let z = cur.read_s16()?;
        let normal = cur.read_s16()?;
        *self = cur;
        Ok(Vertex { x, y, z, normal })
    }
}

impl Record for Frame {
    open spec fn width() -> nat {
        FRAME_WIDTH as nat
    }

    open spec fn at(bytes: Seq<u8>, pos: int) -> Result<FrameView, Md3Error> {
        frame_at(bytes, pos)
    }

    open spec fn storable(record: FrameView) -> bool {
        name_fits(record.name, FRAME_NAME_LEN as int)
    }

    open spec fn bytes(record: FrameView) -> Seq<u8> {
        frame_bytes(record)
    }

    fn read(reader: &mut Reader) -> (r: Result<Self, Md3Error>) {
        reader.read_frame()
    }

    proof fn lemma_cut_short(bytes: Seq<u8>, k: int, pos: int) {
        lemma_cut_keeps_fields(bytes, k);
    }

    proof fn lemma_read_back(bytes: Seq<u8>, pos: int, record: FrameView) {
        lemma_frame_read_back(bytes, pos, record);
    }
}

impl Record for Tag {
    open spec fn width() -> nat {
        TAG_WIDTH as nat
    }

    open spec fn at(bytes: Seq<u8>, pos: int) -> Result<TagView, Md3Error> {
        tag_at(bytes, pos)
    }

    open spec fn storable(record: TagView) -> bool {
        name_fits(record.name, MAX_QPATH as int) && record.axis.len() == 3
    }

    open spec fn bytes(record: TagView) -> Seq<u8> {
        tag_bytes(record)
    }

    fn read(reader: &mut Reader) -> (r: Result<Self, Md3Error>) {
        reader.read_tag()
    }

    proof fn lemma_cut_short(bytes: Seq<u8>, k: int, pos: int) {
        lemma_cut_keeps_fields(bytes, k);
    }

    proof fn lemma_read_back(bytes: Seq<u8>, pos: int, record: TagView) {
        lemma_tag_read_back(bytes, pos, record);
    }
}

impl Record for Shader {
    open spec fn width() -> nat {
        SHADER_WIDTH as nat
    }

    open spec fn at(bytes: Seq<u8>, pos: int) -> Result<ShaderView, Md3Error> {
        shader_at(bytes, pos)
    }

    open spec fn storable(record: ShaderView) -> bool {
        name_fits(record.name, MAX_QPATH as int)
    }

    open spec fn bytes(record: ShaderView) -> Seq<u8> {
        shader_bytes(record)
    }

    fn read(reader: &mut Reader) -> (r: Result<Self, Md3Error>) {
        reader.read_shader()
    }

    proof fn lemma_cut_short(bytes: Seq<u8>, k: int, pos: int) {
        lemma_cut_keeps_fields(bytes, k);
    }

    proof fn lemma_read_back(bytes: Seq<u8>, pos: int, record: ShaderView) {
        lemma_shader_read_back(bytes, pos, record);
    }
}

impl Record for Triangle {
    open spec fn width() -> nat {
        TRIANGLE_WIDTH as nat
    }

    open spec fn at(bytes: Seq<u8>, pos: int) -> Result<TriangleView, Md3Error> {
        triangle_at(bytes, pos)
    }

    open spec fn storable(record: TriangleView) -> bool {
        record.indexes.len() == 3
    }

    open spec fn bytes(record: TriangleView) -> Seq<u8> {
        triangle_bytes(record)
    }

    fn read(reader: &mut Reader) -> (r: Result<Self, Md3Error>) {
        reader.read_triangle()
    }

    proof fn lemma_cut_short(bytes: Seq<u8>, k: int, pos: int) {
        lemma_cut_keeps_fields(bytes, k);
    }

    proof fn lemma_read_back(bytes: Seq<u8>, pos: int, record: TriangleView) {
        lemma_triangle_read_back(bytes, pos, record);
    }
}

impl Record for TexCoord {
    open spec fn width() -> nat {
        TEX_COORD_WIDTH as nat
    }

    open spec fn at(bytes: Seq<u8>, pos: int) -> Result<TexCoordView, Md3Error> {
        tex_coord_at(bytes, pos)
    }

    open spec fn storable(record: TexCoordView) -> bool {
        record.st.len() == 2
    }

    open spec fn bytes(record: TexCoordView) -> Seq<u8> {
        tex_coord_bytes(record)
    }

    fn read(reader: &mut Reader) -> (r: Result<Self, Md3Error>) {
        reader.read_tex_coord()
    }

    proof fn lemma_cut_short(bytes: Seq<u8>, k: int, pos: int) {
        lemma_cut_keeps_fields(bytes, k);
    }

    proof fn lemma_read_back(bytes: Seq<u8>, pos: int, record: TexCoordView) {
        lemma_tex_coord_read_back(bytes, pos, record);
    }
}

impl Record for Vertex {
    open spec fn width() -> nat {
        VERTEX_WIDTH as nat
    }

    open spec fn at(bytes: Seq<u8>, pos: int) -> Result<Vertex, Md3Error> {
        vertex_at(bytes, pos)
    }

    open spec fn storable(record: Vertex) -> bool {
        true
    }

    open spec fn bytes(record: Vertex) -> Seq<u8> {
        vertex_bytes(record)
    }

    fn read(reader: &mut Reader) -> (r: Result<Self, Md3Error>) {
        reader.read_vertex()
    }

    proof fn lemma_cut_short(bytes: Seq<u8>, k: int, pos: int) {
        lemma_cut_keeps_fields(bytes, k);
    }

    proof fn lemma_read_back(bytes: Seq<u8>, pos: int, record: Vertex) {
        lemma_vertex_read_back(bytes, pos, record);
    }
}

} // verus!
