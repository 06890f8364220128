//! The model assembler: it follows the offsets of the headers.

use crate::error::Md3Error;
use crate::format::{md3_from, prepend, surface_at, surfaces_at, surfaces_end, MD3_MAGIC};
use crate::reader::{outcome, Reader, ReaderView};
use crate::section::{lemma_prepend_twice, record_count};
use crate::types::{Frame, Md3, Shader, Surface, Tag, TexCoord, Triangle};
use vstd::prelude::*;

verus! {

impl<'a> Reader<'a> {
    /// Reads the surface that starts at the cursor: its header and then,
    /// each at its offset from that start, its shaders, triangles, texture
    /// coordinates and vertex table. The cursor ends where the header says
    /// the surface ends, `ofs_end` bytes behind its start, and does not move
    /// where the read fails.
    pub fn read_surface(&mut self) -> (r: Result<Surface, Md3Error>)
        ensures
            outcome(r) == surface_at(old(self)@.bytes, old(self)@.pos),
            final(self)@ == (match r {
                Ok(surface) => ReaderView {
                    bytes: old(self)@.bytes,
                    pos: old(self)@.pos + surface.header.ofs_end,
                },
                Err(_) => old(self)@,
            }),
    {
        proof {
            reveal(surface_at);
            self.lemma_len_fits();
        }
        let mut cur = *self;
        let header = cur.read_surface_header()?;
        let start: u64 = self.position() as u64;

        cur.seek_relative(start, header.ofs_shaders);
        let shaders = cur.read_many::<Shader>(record_count(header.num_shaders))?;

        cur.seek_relative(start, header.ofs_triangles);
        let triangles = cur.read_many::<Triangle>(record_count(header.num_triangles))?;

        cur.seek_relative(start, header.ofs_st);
        let tex_coords = cur.read_many::<TexCoord>(record_count(header.num_verts))?;

        cur.seek_relative(start, header.ofs_xyznormal);
        let vertices = cur.read_vertex_frames(
            record_count(header.num_frames),
            record_count(header.num_verts),
        )?;

        cur.seek_relative(start, header.ofs_end);
        *self = cur;
        Ok(Surface { header, shaders, triangles, tex_coords, vertices })
    }

    /// Reads `count` surfaces and moves the cursor behind the last. Each
    /// surface starts where the one before says that it ends, whatever lies
    /// between. The first surface that fails ends the read with its error.
    pub fn read_surfaces(&mut self, count: usize) -> (r: Result<Vec<Surface>, Md3Error>)
        ensures
            outcome(r) == surfaces_at(old(self)@.bytes, old(self)@.pos, count as nat),
            final(self)@ == (match r {
                Ok(_) => ReaderView {
                    bytes: old(self)@.bytes,
                    pos: surfaces_end(old(self)@.bytes, old(self)@.pos, count as nat),
                },
                Err(_) => old(self)@,
            }),
    {
        let ghost bytes = self@.bytes;
        let ghost start = self@.pos;
        let mut cur = *self;
        let mut surfaces: Vec<Surface> = Vec::new();
        let mut i: usize = 0;
        while i < count
            invariant
                i <= count,
                *self == *old(self),
                bytes == self@.bytes,
                start == self@.pos,
                cur@.bytes == bytes,
                surfaces_at(bytes, start, count as nat) == prepend(
                    surfaces.deep_view(),
                    surfaces_at(bytes, cur@.pos, (count - i) as nat),
                ),
                surfaces_end(bytes, start, count as nat) == surfaces_end(
                    bytes,
                    cur@.pos,
                    (count - i) as nat,
                ),
            decreases count - i,
        {
            let ghost before = surfaces.deep_view();
            let ghost pos = cur@.pos;
            match cur.read_surface() {
                Ok(surface) => {
                    proof {
                        let rest = surfaces_at(
                            bytes,
                            pos + surface.header.ofs_end,
                            (count - i - 1) as nat,
                        );
                        lemma_prepend_twice(before, seq![surface.deep_view()], rest);
                    }
                    surfaces.push(surface);
                    assert(surfaces.deep_view() =~= before + seq![surface.deep_view()]);
                },
                Err(e) => {
                    return Err(e);
                },
            }
            i = i + 1;
        }
        *self = cur;
        Ok(surfaces)
    }
}

impl Md3 {
    /// Decodes a model from the bytes of an MD3 file.
    ///
    /// The signature is the only thing that is checked; every other field is
    /// taken as it is stored. Decoding is all or nothing: the first read that
    /// fails ends it with that read's error.
    pub fn from_bytes(bytes: &[u8]) -> (r: Result<Md3, Md3Error>)
        ensures
            outcome(r) == md3_from(bytes@),
    {
        let mut reader = Reader::new(bytes);
        let magic = reader.read_s32()?;
        if magic != MD3_MAGIC {
            return Err(Md3Error::InvalidMagic);
        }
        reader.seek(0);
        let header = reader.read_md3_header()?;

        reader.seek(header.ofs_frames as i64);
        let frames = reader.read_many::<Frame>(record_count(header.num_frames))?;

        reader.seek(header.ofs_tags as i64);
        let tags = reader.read_many::<Tag>(record_count(header.num_tags))?;

        reader.seek(header.ofs_surfaces as i64);
        let surfaces = reader.read_surfaces(record_count(header.num_surfaces))?;

        Ok(Md3 { header, frames, tags, surfaces })
    }
}

} // verus!
