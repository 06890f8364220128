//! Theorems about the layout.
//!
//! [`crate::format`] defines what decoding returns. What is proved here
//! follows from those definitions for every buffer. The signature comes
//! first ([`lemma_signature_comes_first`]). A name ends at its first NUL
//! ([`lemma_name_ends_at_first_nul`]). Every collection keeps the stored
//! order, and a surface starts where the one before says that it ends
//! ([`lemma_many_at_in_order`], [`lemma_vertex_frames_in_order`],
//! [`lemma_surfaces_in_order`]). A buffer cut short decodes as the whole
//! buffer does or fails for want of bytes, and it fails exactly where a byte
//! that decoding needs is missing ([`lemma_cut_short_is_eof`],
//! [`lemma_cut_short_exactly`]). Decoding gives back what was written
//! ([`lemma_decoding_reads_back`]).

use crate::error::Md3Error;
use crate::format::{
    count_of, float_of, frame_at, i16_of, i32_of, in_bounds, many_at, md3_header_at, md3_from,
    name_bytes_of, nul_index, shader_at, string_at, surface_at, surface_header_at, surfaces_at,
    surfaces_end, tag_at, tex_coord_at, triangle_at, vec3_of, vertex_at, vertex_frames_at,
    MD3_HEADER_WIDTH, MD3_MAGIC, SURFACE_HEADER_WIDTH, VERTEX_WIDTH,
};
use crate::layout::{
    float_bytes, frame_bytes, i16_bytes, i32_bytes, md3_header_bytes, md3_inside, md3_stored,
    name_bytes, name_fits, section_inside, section_stored, shader_bytes, stored_at,
    surface_header_bytes, surface_inside, surface_stored, surfaces_inside, surfaces_stored,
    tag_bytes, tex_coord_bytes, triangle_bytes, u16_bytes, u32_bytes, vec3_bytes, vertex_bytes,
    vertex_table_inside, vertex_table_stored,
};
use crate::records::Record;
use crate::types::{
    Float32, Frame, FrameView, Md3HeaderView, Md3View, Shader, ShaderView, SurfaceHeaderView,
    SurfaceView, Tag, TagView, TexCoord, TexCoordView, Triangle, TriangleView, Vec3, Vertex,
};
use vstd::prelude::*;
use vstd::utf8::{
    decode_utf8, decode_utf8_encode_utf8, encode_scalar, encode_utf8, encode_utf8_decode_utf8,
    encode_utf8_valid_utf8, valid_utf8,
};

verus! {

/// The first NUL of `field` is at `k` where no byte before `k` is NUL and
/// `k` is the end of the field or holds one.
pub proof fn lemma_first_nul(field: Seq<u8>, k: int)
    requires
        0 <= k <= field.len(),
        forall|j: int| 0 <= j < k ==> field[j] != 0,
        k < field.len() ==> field[k] == 0,
    ensures
        nul_index(field) == k,
    decreases k,
{
    if k > 0 {
        let rest = field.drop_first();
        assert forall|j: int| 0 <= j < k - 1 implies rest[j] != 0 by {
            assert(rest[j] == field[j + 1]);
        }
        lemma_first_nul(rest, k - 1);
    }
}

/// A buffer that does not begin with the signature is refused for that,
/// whatever else it holds and however short it is behind its first four
/// bytes.
pub proof fn lemma_signature_comes_first(bytes: Seq<u8>)
    requires
        bytes.len() >= 4,
        i32_of(bytes, 0) != MD3_MAGIC,
    ensures
        md3_from(bytes) == Err::<Md3View, Md3Error>(Md3Error::InvalidMagic),
{
}

/// A name ends at the first NUL of its field. Where that NUL is at byte `k`,
/// the name is the text that the `k` bytes before it spell, so it is `k`
/// bytes long, and the bytes behind the NUL bear on nothing.
pub proof fn lemma_name_ends_at_first_nul(bytes: Seq<u8>, pos: int, len: int, k: int)
    requires
        in_bounds(bytes, pos, len),
        0 <= k < len,
        bytes[pos + k] == 0,
        forall|j: int| pos <= j < pos + k ==> bytes[j] != 0,
    ensures
        name_bytes_of(bytes, pos, len) == bytes.subrange(pos, pos + k),
        string_at(bytes, pos, len) == (
            if valid_utf8(bytes.subrange(pos, pos + k)) {
                Ok::<Seq<char>, Md3Error>(decode_utf8(bytes.subrange(pos, pos + k)))
            } else {
                Err::<Seq<char>, Md3Error>(Md3Error::InvalidEncoding)
            }
        ),
        string_at(bytes, pos, len) matches Ok(name) ==> encode_utf8(name) == bytes.subrange(
            pos,
            pos + k,
        ) && encode_utf8(name).len() == k,
{
    let field = bytes.subrange(pos, pos + len);
    lemma_first_nul(field, k);
    assert(field.take(k) =~= bytes.subrange(pos, pos + k));
    if valid_utf8(bytes.subrange(pos, pos + k)) {
        decode_utf8_encode_utf8(bytes.subrange(pos, pos + k));
    }
}

/// A file whose header counts no surfaces decodes to a model without
/// surfaces, wherever the header says that they are, as soon as its header,
/// its frames and its tags can be read.
pub proof fn lemma_no_surfaces(
    bytes: Seq<u8>,
    header: Md3HeaderView,
    frames: Seq<FrameView>,
    tags: Seq<TagView>,
)
    requires
        md3_header_at(bytes, 0) == Ok::<Md3HeaderView, Md3Error>(header),
        header.ident == MD3_MAGIC,
        header.num_surfaces == 0,
        many_at::<Frame>(bytes, header.ofs_frames as int, count_of(header.num_frames)) == Ok::<
            Seq<FrameView>,
            Md3Error,
        >(frames),
        many_at::<Tag>(bytes, header.ofs_tags as int, count_of(header.num_tags)) == Ok::<
            Seq<TagView>,
            Md3Error,
        >(tags),
    ensures
        md3_from(bytes) == Ok::<Md3View, Md3Error>(
            Md3View { header, frames, tags, surfaces: Seq::<SurfaceView>::empty() },
        ),
{
}

/// A section keeps the stored order. `count` records read from `pos` are
/// `items` exactly where `items` has `count` items and item `i` is the record
/// that stands `i` widths behind `pos`.
pub proof fn lemma_many_at_in_order<T: Record>(
    bytes: Seq<u8>,
    pos: int,
    count: nat,
    items: Seq<T::V>,
)
    ensures
        many_at::<T>(bytes, pos, count) == Ok::<Seq<T::V>, Md3Error>(items) <==> items.len()
            == count && forall|i: int|
            0 <= i < count ==> T::at(bytes, pos + i * T::width()) == Ok::<T::V, Md3Error>(
                #[trigger] items[i],
            ),
    decreases count,
{
    let w = T::width() as int;
    if count == 0 {
        if items.len() == 0 {
            assert(items =~= Seq::<T::V>::empty());
        }
    } else {
        if many_at::<T>(bytes, pos, count) == Ok::<Seq<T::V>, Md3Error>(items) {
            let rest = many_at::<T>(bytes, pos + w, (count - 1) as nat)->Ok_0;
            lemma_many_at_in_order::<T>(bytes, pos + w, (count - 1) as nat, rest);
            assert forall|i: int| 0 <= i < count implies T::at(bytes, pos + i * w) == Ok::<
                T::V,
                Md3Error,
            >(#[trigger] items[i]) by {
                if i > 0 {
                    assert(pos + i * w == pos + w + (i - 1) * w) by (nonlinear_arith);
                }
            }
        }
        if items.len() == count && forall|i: int|
            0 <= i < count ==> T::at(bytes, pos + i * w) == Ok::<T::V, Md3Error>(
                #[trigger] items[i],
            ) {
            let rest = items.drop_first();
            lemma_many_at_in_order::<T>(bytes, pos + w, (count - 1) as nat, rest);
            assert forall|i: int| 0 <= i < count - 1 implies T::at(bytes, pos + w + i * w) == Ok::<
                T::V,
                Md3Error,
            >(#[trigger] rest[i]) by {
                assert(pos + (i + 1) * w == pos + w + i * w) by (nonlinear_arith);
            }
            assert(seq![items[0]] + rest =~= items);
        }
    }
}

/// A vertex table keeps the stored order of its frames. A table of `frames`
/// by `verts` vertices read from `pos` is `table` exactly where `table` has
/// `frames` rows and row `f` is the section of `verts` vertices that stands
/// `f` rows behind `pos`.
pub proof fn lemma_vertex_frames_in_order(
    bytes: Seq<u8>,
    pos: int,
    frames: nat,
    verts: nat,
    table: Seq<Seq<Vertex>>,
)
    ensures
        vertex_frames_at(bytes, pos, frames, verts) == Ok::<Seq<Seq<Vertex>>, Md3Error>(table)
            <==> table.len() == frames && forall|f: int|
            0 <= f < frames ==> many_at::<Vertex>(bytes, pos + f * (VERTEX_WIDTH * verts), verts)
                == Ok::<Seq<Vertex>, Md3Error>(#[trigger] table[f]),
    decreases frames,
{
    let row = VERTEX_WIDTH * verts;
    if frames == 0 {
        if table.len() == 0 {
            assert(table =~= Seq::<Seq<Vertex>>::empty());
        }
    } else {
        if vertex_frames_at(bytes, pos, frames, verts) == Ok::<Seq<Seq<Vertex>>, Md3Error>(table) {
            let rest = vertex_frames_at(bytes, pos + row, (frames - 1) as nat, verts)->Ok_0;
            lemma_vertex_frames_in_order(bytes, pos + row, (frames - 1) as nat, verts, rest);
            assert forall|f: int| 0 <= f < frames implies many_at::<Vertex>(
                bytes,
                pos + f * row,
                verts,
            ) == Ok::<Seq<Vertex>, Md3Error>(#[trigger] table[f]) by {
                if f > 0 {
                    assert(pos + f * row == pos + row + (f - 1) * row) by (nonlinear_arith);
                }
            }
        }
        if table.len() == frames && forall|f: int|
            0 <= f < frames ==> many_at::<Vertex>(bytes, pos + f * row, verts) == Ok::<
                Seq<Vertex>,
                Md3Error,
            >(#[trigger] table[f]) {
            let rest = table.drop_first();
            lemma_vertex_frames_in_order(bytes, pos + row, (frames - 1) as nat, verts, rest);
            assert forall|f: int| 0 <= f < frames - 1 implies many_at::<Vertex>(
                bytes,
                pos + row + f * row,
                verts,
            ) == Ok::<Seq<Vertex>, Md3Error>(#[trigger] rest[f]) by {
                assert(pos + (f + 1) * row == pos + row + f * row) by (nonlinear_arith);
            }
            assert(seq![table[0]] + rest =~= table);
        }
    }
}

/// In a vertex table that could be read, vertex `v` of frame `f` is the one
/// stored `f * verts + v` vertices behind the start of the table.
pub proof fn lemma_vertex_table_cell(
    bytes: Seq<u8>,
    pos: int,
    frames: nat,
    verts: nat,
    table: Seq<Seq<Vertex>>,
    f: int,
    v: int,
)
    requires
        vertex_frames_at(bytes, pos, frames, verts) == Ok::<Seq<Seq<Vertex>>, Md3Error>(table),
        0 <= f < frames,
        0 <= v < verts,
    ensures
        table.len() == frames,
        table[f].len() == verts,
        vertex_at(bytes, pos + VERTEX_WIDTH * (f * verts + v)) == Ok::<Vertex, Md3Error>(
            table[f][v],
        ),
{
    lemma_vertex_frames_in_order(bytes, pos, frames, verts, table);
    let row = pos + f * (VERTEX_WIDTH * verts);
    lemma_many_at_in_order::<Vertex>(bytes, row, verts, table[f]);
    assert(row + v * VERTEX_WIDTH == pos + VERTEX_WIDTH * (f * verts + v)) by (nonlinear_arith)
        requires
            row == pos + f * (VERTEX_WIDTH * verts),
    ;
}

/// The surfaces keep the stored order, and each starts where the one before
/// says that it ends. `count` surfaces read from `pos` are `items` exactly
/// where `items` has `count` items and item `i` is the surface that stands
/// behind the first `i` of them. That place is `ofs_end` of surface `i - 1`
/// bytes behind the start of surface `i - 1`, whatever lies between.
pub proof fn lemma_surfaces_in_order(
    bytes: Seq<u8>,
    pos: int,
    count: nat,
    items: Seq<SurfaceView>,
)
    ensures
        surfaces_at(bytes, pos, count) == Ok::<Seq<SurfaceView>, Md3Error>(items) <==> items.len()
            == count && forall|i: int|
            0 <= i < count ==> surface_at(bytes, surfaces_end(bytes, pos, i as nat)) == Ok::<
                SurfaceView,
                Md3Error,
            >(#[trigger] items[i]),
        surfaces_at(bytes, pos, count) == Ok::<Seq<SurfaceView>, Md3Error>(items) ==> forall|
            i: int,
        |
            0 <= i < count ==> surfaces_end(bytes, pos, (i + 1) as nat) == surfaces_end(
                bytes,
                pos,
                i as nat,
            ) + (#[trigger] items[i]).header.ofs_end,
    decreases count,
{
    if count == 0 {
        if items.len() == 0 {
            assert(items =~= Seq::<SurfaceView>::empty());
        }
    } else {
        if surfaces_at(bytes, pos, count) == Ok::<Seq<SurfaceView>, Md3Error>(items) {
            let first = surface_at(bytes, pos)->Ok_0;
            let next = pos + first.header.ofs_end;
            let rest = surfaces_at(bytes, next, (count - 1) as nat)->Ok_0;
            lemma_surfaces_in_order(bytes, next, (count - 1) as nat, rest);
            assert forall|i: int| 0 <= i < count implies surface_at(
                bytes,
                surfaces_end(bytes, pos, i as nat),
            ) == Ok::<SurfaceView, Md3Error>(#[trigger] items[i]) && surfaces_end(
                bytes,
                pos,
                (i + 1) as nat,
            ) == surfaces_end(bytes, pos, i as nat) + items[i].header.ofs_end by {
                assert(surfaces_end(bytes, pos, (i + 1) as nat) == surfaces_end(
                    bytes,
                    next,
                    i as nat,
                ));
            }
        }
        if items.len() == count && forall|i: int|
            0 <= i < count ==> surface_at(bytes, surfaces_end(bytes, pos, i as nat)) == Ok::<
                SurfaceView,
                Md3Error,
            >(#[trigger] items[i]) {
            let first = items[0];
            let next = pos + first.header.ofs_end;
            let rest = items.drop_first();
            lemma_surfaces_in_order(bytes, next, (count - 1) as nat, rest);
            assert(seq![first] + rest =~= items);
        }
    }
}

/// How the result of a read from a buffer cut short stands to the result of
/// the same read from the whole buffer: it is the same, or it is an error for
/// want of bytes.
pub open spec fn cut_short<V>(whole: Result<V, Md3Error>, cut: Result<V, Md3Error>) -> bool {
    cut == whole || cut == Err::<V, Md3Error>(Md3Error::UnexpectedEof)
}

/// What is inside a buffer cut short is inside the whole buffer, and is the
/// same there.
pub proof fn lemma_cut_keeps_fields(bytes: Seq<u8>, k: int)
    requires
        0 <= k <= bytes.len(),
    ensures
        forall|p: int, q: int|
            0 <= p <= q <= k ==> #[trigger] bytes.take(k).subrange(p, q) == bytes.subrange(p, q),
{
}

/// A file header that can be read lies inside the buffer. Read from the
/// first `k` bytes of the buffer, it is the same where it lies inside those,
/// and the read fails for want of bytes where it does not.
pub proof fn lemma_md3_header_cut_short(bytes: Seq<u8>, k: int, pos: int)
    requires
        0 <= k <= bytes.len(),
    ensures
        cut_short(md3_header_at(bytes, pos), md3_header_at(bytes.take(k), pos)),
        md3_header_at(bytes, pos) is Ok ==> in_bounds(bytes, pos, MD3_HEADER_WIDTH as int),
        in_bounds(bytes.take(k), pos, MD3_HEADER_WIDTH as int) ==> md3_header_at(
            bytes.take(k),
            pos,
        ) == md3_header_at(bytes, pos),
        md3_header_at(bytes, pos) is Ok && !in_bounds(bytes.take(k), pos, MD3_HEADER_WIDTH as int)
            ==> md3_header_at(bytes.take(k), pos) == Err::<Md3HeaderView, Md3Error>(
            Md3Error::UnexpectedEof,
        ),
{
    lemma_cut_keeps_fields(bytes, k);
}

/// A surface header that can be read lies inside the buffer. Read from the
/// first `k` bytes of the buffer, it is the same where it lies inside those,
/// and the read fails for want of bytes where it does not.
pub proof fn lemma_surface_header_cut_short(bytes: Seq<u8>, k: int, pos: int)
    requires
        0 <= k <= bytes.len(),
    ensures
        cut_short(surface_header_at(bytes, pos), surface_header_at(bytes.take(k), pos)),
        surface_header_at(bytes, pos) is Ok ==> in_bounds(
            bytes,
            pos,
            SURFACE_HEADER_WIDTH as int,
        ),
        in_bounds(bytes.take(k), pos, SURFACE_HEADER_WIDTH as int) ==> surface_header_at(
            bytes.take(k),
            pos,
        ) == surface_header_at(bytes, pos),
        surface_header_at(bytes, pos) is Ok && !in_bounds(
            bytes.take(k),
            pos,
            SURFACE_HEADER_WIDTH as int,
        ) ==> surface_header_at(bytes.take(k), pos) == Err::<SurfaceHeaderView, Md3Error>(
            Md3Error::UnexpectedEof,
        ),
{
    lemma_cut_keeps_fields(bytes, k);
}

/// A section that can be read from the whole buffer can be read from the
/// buffer cut short exactly where all its bytes are still there, and gives
/// the same records then. Where a byte of it is missing, the read fails for
/// want of bytes.
pub proof fn lemma_many_at_cut_short<T: Record>(bytes: Seq<u8>, k: int, pos: int, count: nat)
    requires
        0 <= k <= bytes.len(),
    ensures
        cut_short(many_at::<T>(bytes, pos, count), many_at::<T>(bytes.take(k), pos, count)),
        many_at::<T>(bytes, pos, count) is Ok ==> many_at::<T>(bytes.take(k), pos, count) == (
            if count == 0 || pos + count * T::width() <= k {
                many_at::<T>(bytes, pos, count)
            } else {
                Err::<Seq<T::V>, Md3Error>(Md3Error::UnexpectedEof)
            }
        ),
        many_at::<T>(bytes, pos, count) is Ok && count > 0 ==> in_bounds(
            bytes,
            pos,
            (count * T::width()) as int,
        ),
    decreases count,
{
    let w = T::width() as int;
    if count > 0 {
        T::lemma_cut_short(bytes, k, pos);
        lemma_many_at_cut_short::<T>(bytes, k, pos + w, (count - 1) as nat);
        assert(pos + count * w == pos + w + (count - 1) * w) by (nonlinear_arith);
    }
}

/// A vertex table that can be read from the whole buffer can be read from
/// the buffer cut short exactly where all its bytes are still there, and is
/// the same then. Where a byte of it is missing, the read fails for want of
/// bytes.
pub proof fn lemma_vertex_frames_cut_short(
    bytes: Seq<u8>,
    k: int,
    pos: int,
    frames: nat,
    verts: nat,
)
    requires
        0 <= k <= bytes.len(),
    ensures
        cut_short(
            vertex_frames_at(bytes, pos, frames, verts),
            vertex_frames_at(bytes.take(k), pos, frames, verts),
        ),
        vertex_frames_at(bytes, pos, frames, verts) is Ok ==> vertex_frames_at(
            bytes.take(k),
            pos,
            frames,
            verts,
        ) == (
            if frames == 0 || verts == 0 || pos + frames * (VERTEX_WIDTH * verts) <= k {
                vertex_frames_at(bytes, pos, frames, verts)
            } else {
                Err::<Seq<Seq<Vertex>>, Md3Error>(Md3Error::UnexpectedEof)
            }
        ),
    decreases frames,
{
    let row = VERTEX_WIDTH * verts;
    if frames > 0 {
        lemma_many_at_cut_short::<Vertex>(bytes, k, pos, verts);
        lemma_vertex_frames_cut_short(bytes, k, pos + row, (frames - 1) as nat, verts);
        assert(pos + frames * row == pos + row + (frames - 1) * row) by (nonlinear_arith);
    }
}

/// A surface read from a buffer cut short is the same as from the whole
/// buffer, or the read fails for want of bytes.
pub proof fn lemma_surface_cut_short(bytes: Seq<u8>, k: int, pos: int)
    requires
        0 <= k <= bytes.len(),
    ensures
        cut_short(surface_at(bytes, pos), surface_at(bytes.take(k), pos)),
{
    reveal(surface_at);
    lemma_surface_header_cut_short(bytes, k, pos);
    if let Ok(h) = surface_header_at(bytes, pos) {
        lemma_many_at_cut_short::<Shader>(bytes, k, pos + h.ofs_shaders, count_of(h.num_shaders));
        lemma_many_at_cut_short::<Triangle>(
            bytes,
            k,
            pos + h.ofs_triangles,
            count_of(h.num_triangles),
        );
        lemma_many_at_cut_short::<TexCoord>(bytes, k, pos + h.ofs_st, count_of(h.num_verts));
        lemma_vertex_frames_cut_short(
            bytes,
            k,
            pos + h.ofs_xyznormal,
            count_of(h.num_frames),
            count_of(h.num_verts),
        );
    }
}

/// Surfaces read from a buffer cut short are the same as from the whole
/// buffer, or the read fails for want of bytes.
pub proof fn lemma_surfaces_cut_short(bytes: Seq<u8>, k: int, pos: int, count: nat)
    requires
        0 <= k <= bytes.len(),
    ensures
        cut_short(surfaces_at(bytes, pos, count), surfaces_at(bytes.take(k), pos, count)),
    decreases count,
{
    if count > 0 {
        lemma_surface_cut_short(bytes, k, pos);
        if let Ok(first) = surface_at(bytes, pos) {
            lemma_surfaces_cut_short(bytes, k, pos + first.header.ofs_end, (count - 1) as nat);
        }
    }
}

/// Cutting a file short never changes what it decodes to, and never brings
/// about another error than the one for want of bytes: the first `k` bytes
/// of a buffer decode as the whole buffer does, or fail with `UnexpectedEof`.
pub proof fn lemma_cut_short_is_eof(bytes: Seq<u8>, k: int)
    requires
        0 <= k <= bytes.len(),
    ensures
        cut_short(md3_from(bytes), md3_from(bytes.take(k))),
{
    lemma_cut_keeps_fields(bytes, k);
    lemma_md3_header_cut_short(bytes, k, 0);
    if let Ok(h) = md3_header_at(bytes, 0) {
        lemma_many_at_cut_short::<Frame>(bytes, k, h.ofs_frames as int, count_of(h.num_frames));
        lemma_many_at_cut_short::<Tag>(bytes, k, h.ofs_tags as int, count_of(h.num_tags));
        lemma_surfaces_cut_short(bytes, k, h.ofs_surfaces as int, count_of(h.num_surfaces));
    }
}

/// A surface that can be read from the whole buffer can be read from the
/// buffer cut short exactly where its header and every part that the header
/// declares are still there, and is the same then. Where a byte of them is
/// missing, the read fails for want of bytes.
pub proof fn lemma_surface_cut_short_exactly(bytes: Seq<u8>, k: int, pos: int, s: SurfaceView)
    requires
        0 <= k <= bytes.len(),
        surface_at(bytes, pos) == Ok::<SurfaceView, Md3Error>(s),
    ensures
        surface_at(bytes.take(k), pos) == (if surface_inside(pos, s, k) {
            Ok::<SurfaceView, Md3Error>(s)
        } else {
            Err::<SurfaceView, Md3Error>(Md3Error::UnexpectedEof)
        }),
{
    reveal(surface_at);
    let h = s.header;
    lemma_surface_header_cut_short(bytes, k, pos);
    lemma_many_at_in_order::<Shader>(
        bytes,
        pos + h.ofs_shaders,
        count_of(h.num_shaders),
        s.shaders,
    );
    lemma_many_at_cut_short::<Shader>(bytes, k, pos + h.ofs_shaders, count_of(h.num_shaders));
    lemma_many_at_in_order::<Triangle>(
        bytes,
        pos + h.ofs_triangles,
        count_of(h.num_triangles),
        s.triangles,
    );
    lemma_many_at_cut_short::<Triangle>(
        bytes,
        k,
        pos + h.ofs_triangles,
        count_of(h.num_triangles),
    );
    lemma_many_at_in_order::<TexCoord>(
        bytes,
        pos + h.ofs_st,
        count_of(h.num_verts),
        s.tex_coords,
    );
    lemma_many_at_cut_short::<TexCoord>(bytes, k, pos + h.ofs_st, count_of(h.num_verts));
    lemma_vertex_frames_in_order(
        bytes,
        pos + h.ofs_xyznormal,
        count_of(h.num_frames),
        count_of(h.num_verts),
        s.vertices,
    );
    lemma_vertex_frames_cut_short(
        bytes,
        k,
        pos + h.ofs_xyznormal,
        count_of(h.num_frames),
        count_of(h.num_verts),
    );
}

/// Surfaces that can be read from the whole buffer can be read from the
/// buffer cut short exactly where all of them are still there, and are the
/// same then. Where a byte of them is missing, the read fails for want of
/// bytes.
pub proof fn lemma_surfaces_cut_short_exactly(
    bytes: Seq<u8>,
    k: int,
    pos: int,
    count: nat,
    items: Seq<SurfaceView>,
)
    requires
        0 <= k <= bytes.len(),
        surfaces_at(bytes, pos, count) == Ok::<Seq<SurfaceView>, Md3Error>(items),
    ensures
        items.len() == count,
        surfaces_at(bytes.take(k), pos, count) == (if surfaces_inside(pos, items, k) {
            Ok::<Seq<SurfaceView>, Md3Error>(items)
        } else {
            Err::<Seq<SurfaceView>, Md3Error>(Md3Error::UnexpectedEof)
        }),
    decreases count,
{
    if count > 0 {
        let first = surface_at(bytes, pos)->Ok_0;
        let next = pos + first.header.ofs_end;
        let rest = surfaces_at(bytes, next, (count - 1) as nat)->Ok_0;
        assert(items.drop_first() =~= rest);
        lemma_surface_cut_short_exactly(bytes, k, pos, first);
        lemma_surfaces_cut_short_exactly(bytes, k, next, (count - 1) as nat, rest);
    }
}

/// A file cut short fails exactly where a byte that it needs is missing. The
/// first `k` bytes of a buffer that decodes to `m` decode to `m` as well
/// where everything that the headers of `m` declare lies inside them. Where
/// a header, a section that holds a record, or a part of a surface reaches
/// past them, decoding fails with `UnexpectedEof`.
pub proof fn lemma_cut_short_exactly(bytes: Seq<u8>, k: int, m: Md3View)
    requires
        0 <= k <= bytes.len(),
        md3_from(bytes) == Ok::<Md3View, Md3Error>(m),
    ensures
        md3_from(bytes.take(k)) == (if md3_inside(m, k) {
            Ok::<Md3View, Md3Error>(m)
        } else {
            Err::<Md3View, Md3Error>(Md3Error::UnexpectedEof)
        }),
{
    let h = m.header;
    lemma_cut_keeps_fields(bytes, k);
    lemma_md3_header_cut_short(bytes, k, 0);
    lemma_many_at_in_order::<Frame>(
        bytes,
        h.ofs_frames as int,
        count_of(h.num_frames),
        m.frames,
    );
    lemma_many_at_cut_short::<Frame>(bytes, k, h.ofs_frames as int, count_of(h.num_frames));
    lemma_many_at_in_order::<Tag>(bytes, h.ofs_tags as int, count_of(h.num_tags), m.tags);
    lemma_many_at_cut_short::<Tag>(bytes, k, h.ofs_tags as int, count_of(h.num_tags));
    lemma_surfaces_cut_short_exactly(
        bytes,
        k,
        h.ofs_surfaces as int,
        count_of(h.num_surfaces),
        m.surfaces,
    );
}

/// What was decoded was there: everything that the headers of a decoded
/// model declare lies inside the buffer, and each collection has as many
/// items as its header counts.
pub proof fn lemma_decoded_lies_inside(bytes: Seq<u8>, m: Md3View)
    requires
        md3_from(bytes) == Ok::<Md3View, Md3Error>(m),
    ensures
        md3_inside(m, bytes.len() as int),
        m.header.ident == MD3_MAGIC,
        m.frames.len() == count_of(m.header.num_frames),
        m.tags.len() == count_of(m.header.num_tags),
        m.surfaces.len() == count_of(m.header.num_surfaces),
{
    let h = m.header;
    lemma_cut_short_exactly(bytes, bytes.len() as int, m);
    assert(bytes.take(bytes.len() as int) =~= bytes);
    lemma_many_at_in_order::<Frame>(
        bytes,
        h.ofs_frames as int,
        count_of(h.num_frames),
        m.frames,
    );
    lemma_many_at_in_order::<Tag>(bytes, h.ofs_tags as int, count_of(h.num_tags), m.tags);
    lemma_surfaces_in_order(bytes, h.ofs_surfaces as int, count_of(h.num_surfaces), m.surfaces);
}

/// A surface that was read has the shape that its header declares: as many
/// shaders and triangles as the header counts, a texture coordinate for
/// each vertex, and a vertex table of `num_frames` rows of `num_verts`
/// vertices.
pub proof fn lemma_surface_shape(bytes: Seq<u8>, pos: int, s: SurfaceView)
    requires
        surface_at(bytes, pos) == Ok::<SurfaceView, Md3Error>(s),
    ensures
        surface_header_at(bytes, pos) == Ok::<SurfaceHeaderView, Md3Error>(s.header),
        s.shaders.len() == count_of(s.header.num_shaders),
        s.triangles.len() == count_of(s.header.num_triangles),
        s.tex_coords.len() == count_of(s.header.num_verts),
        s.vertices.len() == count_of(s.header.num_frames),
        forall|f: int|
            0 <= f < s.vertices.len() ==> (#[trigger] s.vertices[f]).len() == count_of(
                s.header.num_verts,
            ),
{
    reveal(surface_at);
    let h = s.header;
    lemma_many_at_in_order::<Shader>(
        bytes,
        pos + h.ofs_shaders,
        count_of(h.num_shaders),
        s.shaders,
    );
    lemma_many_at_in_order::<Triangle>(
        bytes,
        pos + h.ofs_triangles,
        count_of(h.num_triangles),
        s.triangles,
    );
    lemma_many_at_in_order::<TexCoord>(
        bytes,
        pos + h.ofs_st,
        count_of(h.num_verts),
        s.tex_coords,
    );
    lemma_vertex_frames_in_order(
        bytes,
        pos + h.ofs_xyznormal,
        count_of(h.num_frames),
        count_of(h.num_verts),
        s.vertices,
    );
    assert forall|f: int| 0 <= f < s.vertices.len() implies (#[trigger] s.vertices[f]).len()
        == count_of(h.num_verts) by {
        lemma_many_at_in_order::<Vertex>(
            bytes,
            pos + h.ofs_xyznormal + f * (VERTEX_WIDTH * count_of(h.num_verts)),
            count_of(h.num_verts),
            s.vertices[f],
        );
    }
}

/// How many bytes spell a value of each kind.
pub proof fn lemma_widths()
    ensures
        forall|v: i16| #[trigger] i16_bytes(v).len() == 2,
        forall|v: i32| #[trigger] i32_bytes(v).len() == 4,
        forall|v: Float32| #[trigger] float_bytes(v).len() == 4,
        forall|v: Vec3| #[trigger] vec3_bytes(v).len() == 12,
        forall|name: Seq<char>, len: int|
            name_fits(name, len) ==> #[trigger] name_bytes(name, len).len() == len,
{
    reveal(u16_bytes);
    reveal(u32_bytes);
    reveal(vec3_bytes);
    reveal(name_bytes);
}

/// Where two runs of bytes stand one behind the other, each of them stands
/// in its place.
pub proof fn lemma_stored_parts(bytes: Seq<u8>, pos: int, a: Seq<u8>, b: Seq<u8>)
    requires
        stored_at(bytes, pos, a + b),
    ensures
        stored_at(bytes, pos, a),
        stored_at(bytes, pos + a.len(), b),
{
    reveal(stored_at);
    let whole = bytes.subrange(pos, pos + (a + b).len());
    assert(bytes.subrange(pos, pos + a.len()) =~= whole.subrange(0, a.len() as int));
    assert((a + b).subrange(0, a.len() as int) =~= a);
    assert(bytes.subrange(pos + a.len(), pos + a.len() + b.len()) =~= whole.subrange(
        a.len() as int,
        (a + b).len() as int,
    ));
    assert((a + b).subrange(a.len() as int, (a + b).len() as int) =~= b);
}

/// A 16-bit integer that was stored is read back as it was.
pub proof fn lemma_i16_read_back(bytes: Seq<u8>, pos: int, v: i16)
    requires
        stored_at(bytes, pos, i16_bytes(v)),
    ensures
        in_bounds(bytes, pos, 2),
        i16_of(bytes, pos) == v,
{
    reveal(stored_at);
    reveal(u16_bytes);
    assert(bytes.subrange(pos, pos + 2) == i16_bytes(v));
}

/// A 32-bit integer that was stored is read back as it was.
pub proof fn lemma_i32_read_back(bytes: Seq<u8>, pos: int, v: i32)
    requires
        stored_at(bytes, pos, i32_bytes(v)),
    ensures
        in_bounds(bytes, pos, 4),
        i32_of(bytes, pos) == v,
{
    reveal(stored_at);
    reveal(u32_bytes);
    assert(bytes.subrange(pos, pos + 4) == i32_bytes(v));
}

/// A float that was stored is read back bit for bit.
pub proof fn lemma_float_read_back(bytes: Seq<u8>, pos: int, v: Float32)
    requires
        stored_at(bytes, pos, float_bytes(v)),
    ensures
        in_bounds(bytes, pos, 4),
        float_of(bytes, pos) == v,
{
    reveal(stored_at);
    reveal(u32_bytes);
    assert(bytes.subrange(pos, pos + 4) == float_bytes(v));
}

/// A vector that was stored is read back bit for bit.
pub proof fn lemma_vec3_read_back(bytes: Seq<u8>, pos: int, v: Vec3)
    requires
        stored_at(bytes, pos, vec3_bytes(v)),
    ensures
        in_bounds(bytes, pos, 12),
        vec3_of(bytes, pos) == v,
{
    reveal(vec3_bytes);
    lemma_widths();
    lemma_stored_parts(bytes, pos, float_bytes(v.x) + float_bytes(v.y), float_bytes(v.z));
    lemma_stored_parts(bytes, pos, float_bytes(v.x), float_bytes(v.y));
    lemma_float_read_back(bytes, pos, v.x);
    lemma_float_read_back(bytes, pos + 4, v.y);
    lemma_float_read_back(bytes, pos + 8, v.z);
}

/// The UTF-8 form of a character other than NUL holds no NUL.
pub proof fn lemma_char_has_no_nul(c: char)
    requires
        c != '\0',
    ensures
        forall|j: int|
            0 <= j < encode_scalar(c as u32).len() ==> #[trigger] encode_scalar(c as u32)[j] != 0,
{
    let s = c as u32;
    assert(1 <= s <= 0x7F ==> (s & 0x7F) as u8 != 0) by (bit_vector);
    assert(0xC0u8 | ((s >> 6) & 0x1F) as u8 != 0) by (bit_vector);
    assert(0xE0u8 | ((s >> 12) & 0x0F) as u8 != 0) by (bit_vector);
    assert(0xF0u8 | ((s >> 18) & 0x7) as u8 != 0) by (bit_vector);
    assert(0x80u8 | (s & 0x3F) as u8 != 0) by (bit_vector);
    assert(0x80u8 | ((s >> 6) & 0x3F) as u8 != 0) by (bit_vector);
    assert(0x80u8 | ((s >> 12) & 0x3F) as u8 != 0) by (bit_vector);
}

/// The UTF-8 form of a text without NUL holds no NUL.
pub proof fn lemma_text_has_no_nul(text: Seq<char>)
    requires
        forall|i: int| 0 <= i < text.len() ==> text[i] != '\0',
    ensures
        forall|j: int| 0 <= j < encode_utf8(text).len() ==> #[trigger] encode_utf8(text)[j] != 0,
    decreases text.len(),
{
    if text.len() > 0 {
        let head = encode_scalar(text[0] as u32);
        let tail = encode_utf8(text.drop_first());
        lemma_char_has_no_nul(text[0]);
        lemma_text_has_no_nul(text.drop_first());
        assert(encode_utf8(text) == head + tail);
    }
}

/// A name that was stored is read back as it was.
pub proof fn lemma_name_read_back(bytes: Seq<u8>, pos: int, name: Seq<char>, len: int)
    requires
        name_fits(name, len),
        stored_at(bytes, pos, name_bytes(name, len)),
    ensures
        in_bounds(bytes, pos, len),
        string_at(bytes, pos, len) == Ok::<Seq<char>, Md3Error>(name),
{
    reveal(stored_at);
    reveal(name_bytes);
    let text = encode_utf8(name);
    let field = name_bytes(name, len);
    lemma_text_has_no_nul(name);
    lemma_first_nul(field, text.len() as int);
    assert(field.take(text.len() as int) =~= text);
    encode_utf8_valid_utf8(name);
    encode_utf8_decode_utf8(name);
}

/// A file header that was stored is read back as it was.
pub proof fn lemma_md3_header_read_back(bytes: Seq<u8>, pos: int, h: Md3HeaderView)
    requires
        name_fits(h.name, 64),
        stored_at(bytes, pos, md3_header_bytes(h)),
    ensures
        md3_header_at(bytes, pos) == Ok::<Md3HeaderView, Md3Error>(h),
{
    lemma_widths();
    let f0 = i32_bytes(h.ident);
    let f1 = f0 + i32_bytes(h.version);
    let f2 = f1 + name_bytes(h.name, 64);
    let f3 = f2 + i32_bytes(h.flags);
    let f4 = f3 + i32_bytes(h.num_frames);
    let f5 = f4 + i32_bytes(h.num_tags);
    let f6 = f5 + i32_bytes(h.num_surfaces);
    let f7 = f6 + i32_bytes(h.num_skins);
    let f8 = f7 + i32_bytes(h.ofs_frames);
    let f9 = f8 + i32_bytes(h.ofs_tags);
    let f10 = f9 + i32_bytes(h.ofs_surfaces);
    lemma_stored_parts(bytes, pos, f10, i32_bytes(h.ofs_eof));
    lemma_stored_parts(bytes, pos, f9, i32_bytes(h.ofs_surfaces));
    lemma_stored_parts(bytes, pos, f8, i32_bytes(h.ofs_tags));
    lemma_stored_parts(bytes, pos, f7, i32_bytes(h.ofs_frames));
    lemma_stored_parts(bytes, pos, f6, i32_bytes(h.num_skins));
    lemma_stored_parts(bytes, pos, f5, i32_bytes(h.num_surfaces));
    lemma_stored_parts(bytes, pos, f4, i32_bytes(h.num_tags));
    lemma_stored_parts(bytes, pos, f3, i32_bytes(h.num_frames));
    lemma_stored_parts(bytes, pos, f2, i32_bytes(h.flags));
    lemma_stored_parts(bytes, pos, f1, name_bytes(h.name, 64));
    lemma_stored_parts(bytes, pos, f0, i32_bytes(h.version));
    lemma_i32_read_back(bytes, pos, h.ident);
    lemma_i32_read_back(bytes, pos + 4, h.version);
    lemma_name_read_back(bytes, pos + 8, h.name, 64);
    lemma_i32_read_back(bytes, pos + 72, h.flags);
    lemma_i32_read_back(bytes, pos + 76, h.num_frames);
    lemma_i32_read_back(bytes, pos + 80, h.num_tags);
    lemma_i32_read_back(bytes, pos + 84, h.num_surfaces);
    lemma_i32_read_back(bytes, pos + 88, h.num_skins);
    lemma_i32_read_back(bytes, pos + 92, h.ofs_frames);
    lemma_i32_read_back(bytes, pos + 96, h.ofs_tags);
    lemma_i32_read_back(bytes, pos + 100, h.ofs_surfaces);
    lemma_i32_read_back(bytes, pos + 104, h.ofs_eof);
}

/// A surface header that was stored is read back as it was.
pub proof fn lemma_surface_header_read_back(bytes: Seq<u8>, pos: int, h: SurfaceHeaderView)
    requires
        name_fits(h.name, 64),
        stored_at(bytes, pos, surface_header_bytes(h)),
    ensures
        surface_header_at(bytes, pos) == Ok::<SurfaceHeaderView, Md3Error>(h),
{
    lemma_widths();
    let f0 = i32_bytes(h.ident);
    let f1 = f0 + name_bytes(h.name, 64);
    let f2 = f1 + i32_bytes(h.flags);
    let f3 = f2 + i32_bytes(h.num_frames);
    let f4 = f3 + i32_bytes(h.num_shaders);
    let f5 = f4 + i32_bytes(h.num_verts);
    let f6 = f5 + i32_bytes(h.num_triangles);
    let f7 = f6 + i32_bytes(h.ofs_triangles);
    let f8 = f7 + i32_bytes(h.ofs_shaders);
    let f9 = f8 + i32_bytes(h.ofs_st);
    let f10 = f9 + i32_bytes(h.ofs_xyznormal);
    lemma_stored_parts(bytes, pos, f10, i32_bytes(h.ofs_end));
    lemma_stored_parts(bytes, pos, f9, i32_bytes(h.ofs_xyznormal));
    lemma_stored_parts(bytes, pos, f8, i32_bytes(h.ofs_st));
    lemma_stored_parts(bytes, pos, f7, i32_bytes(h.ofs_shaders));
    lemma_stored_parts(bytes, pos, f6, i32_bytes(h.ofs_triangles));
    lemma_stored_parts(bytes, pos, f5, i32_bytes(h.num_triangles));
    lemma_stored_parts(bytes, pos, f4, i32_bytes(h.num_verts));
    lemma_stored_parts(bytes, pos, f3, i32_bytes(h.num_shaders));
    lemma_stored_parts(bytes, pos, f2, i32_bytes(h.num_frames));
    lemma_stored_parts(bytes, pos, f1, i32_bytes(h.flags));
    lemma_stored_parts(bytes, pos, f0, name_bytes(h.name, 64));
    lemma_i32_read_back(bytes, pos, h.ident);
    lemma_name_read_back(bytes, pos + 4, h.name, 64);
    lemma_i32_read_back(bytes, pos + 68, h.flags);
    lemma_i32_read_back(bytes, pos + 72, h.num_frames);
    lemma_i32_read_back(bytes, pos + 76, h.num_shaders);
    lemma_i32_read_back(bytes, pos + 80, h.num_verts);
    lemma_i32_read_back(bytes, pos + 84, h.num_triangles);
    lemma_i32_read_back(bytes, pos + 88, h.ofs_triangles);
    lemma_i32_read_back(bytes, pos + 92, h.ofs_shaders);
    lemma_i32_read_back(bytes, pos + 96, h.ofs_st);
    lemma_i32_read_back(bytes, pos + 100, h.ofs_xyznormal);
    lemma_i32_read_back(bytes, pos + 104, h.ofs_end);
}

/// A frame that was stored is read back as it was.
pub proof fn lemma_frame_read_back(bytes: Seq<u8>, pos: int, f: FrameView)
    requires
        name_fits(f.name, 16),
        stored_at(bytes, pos, frame_bytes(f)),
    ensures
        frame_at(bytes, pos) == Ok::<FrameView, Md3Error>(f),
{
    lemma_widths();
    let f0 = vec3_bytes(f.min_bounds);
    let f1 = f0 + vec3_bytes(f.max_bounds);
    let f2 = f1 + vec3_bytes(f.local_origin);
    let f3 = f2 + float_bytes(f.radius);
    lemma_stored_parts(bytes, pos, f3, name_bytes(f.name, 16));
    lemma_stored_parts(bytes, pos, f2, float_bytes(f.radius));
    lemma_stored_parts(bytes, pos, f1, vec3_bytes(f.local_origin));
    lemma_stored_parts(bytes, pos, f0, vec3_bytes(f.max_bounds));
    lemma_vec3_read_back(bytes, pos, f.min_bounds);
    lemma_vec3_read_back(bytes, pos + 12, f.max_bounds);
    lemma_vec3_read_back(bytes, pos + 24, f.local_origin);
    lemma_float_read_back(bytes, pos + 36, f.radius);
    lemma_name_read_back(bytes, pos + 40, f.name, 16);
}

/// A tag that was stored is read back as it was.
pub proof fn lemma_tag_read_back(bytes: Seq<u8>, pos: int, t: TagView)
    requires
        name_fits(t.name, 64),
        t.axis.len() == 3,
        stored_at(bytes, pos, tag_bytes(t)),
    ensures
        tag_at(bytes, pos) == Ok::<TagView, Md3Error>(t),
{
    lemma_widths();
    let f0 = name_bytes(t.name, 64);
    let f1 = f0 + vec3_bytes(t.origin);
    let f2 = f1 + vec3_bytes(t.axis[0]);
    let f3 = f2 + vec3_bytes(t.axis[1]);
    lemma_stored_parts(bytes, pos, f3, vec3_bytes(t.axis[2]));
    lemma_stored_parts(bytes, pos, f2, vec3_bytes(t.axis[1]));
    lemma_stored_parts(bytes, pos, f1, vec3_bytes(t.axis[0]));
    lemma_stored_parts(bytes, pos, f0, vec3_bytes(t.origin));
    lemma_name_read_back(bytes, pos, t.name, 64);
    lemma_vec3_read_back(bytes, pos + 64, t.origin);
    lemma_vec3_read_back(bytes, pos + 76, t.axis[0]);
    lemma_vec3_read_back(bytes, pos + 88, t.axis[1]);
    lemma_vec3_read_back(bytes, pos + 100, t.axis[2]);
    assert(t.axis =~= seq![t.axis[0], t.axis[1], t.axis[2]]);
}

/// A shader that was stored is read back as it was.
pub proof fn lemma_shader_read_back(bytes: Seq<u8>, pos: int, s: ShaderView)
    requires
        name_fits(s.name, 64),
        stored_at(bytes, pos, shader_bytes(s)),
    ensures
        shader_at(bytes, pos) == Ok::<ShaderView, Md3Error>(s),
{
    lemma_widths();
    lemma_stored_parts(bytes, pos, name_bytes(s.name, 64), i32_bytes(s.shader_index));
    lemma_name_read_back(bytes, pos, s.name, 64);
    lemma_i32_read_back(bytes, pos + 64, s.shader_index);
}

/// A triangle that was stored is read back as it was.
pub proof fn lemma_triangle_read_back(bytes: Seq<u8>, pos: int, t: TriangleView)
    requires
        t.indexes.len() == 3,
        stored_at(bytes, pos, triangle_bytes(t)),
    ensures
        triangle_at(bytes, pos) == Ok::<TriangleView, Md3Error>(t),
{
    lemma_widths();
    let f0 = i32_bytes(t.indexes[0]);
    let f1 = f0 + i32_bytes(t.indexes[1]);
    lemma_stored_parts(bytes, pos, f1, i32_bytes(t.indexes[2]));
    lemma_stored_parts(bytes, pos, f0, i32_bytes(t.indexes[1]));
    lemma_i32_read_back(bytes, pos, t.indexes[0]);
    lemma_i32_read_back(bytes, pos + 4, t.indexes[1]);
    lemma_i32_read_back(bytes, pos + 8, t.indexes[2]);
    assert(t.indexes =~= seq![t.indexes[0], t.indexes[1], t.indexes[2]]);
}

/// A texture coordinate that was stored is read back bit for bit.
pub proof fn lemma_tex_coord_read_back(bytes: Seq<u8>, pos: int, t: TexCoordView)
    requires
        t.st.len() == 2,
        stored_at(bytes, pos, tex_coord_bytes(t)),
    ensures
        tex_coord_at(bytes, pos) == Ok::<TexCoordView, Md3Error>(t),
{
    lemma_widths();
    lemma_stored_parts(bytes, pos, float_bytes(t.st[0]), float_bytes(t.st[1]));
    lemma_float_read_back(bytes, pos, t.st[0]);
    lemma_float_read_back(bytes, pos + 4, t.st[1]);
    assert(t.st =~= seq![t.st[0], t.st[1]]);
}

/// A vertex that was stored is read back as it was.
pub proof fn lemma_vertex_read_back(bytes: Seq<u8>, pos: int, v: Vertex)
    requires
        stored_at(bytes, pos, vertex_bytes(v)),
    ensures
        vertex_at(bytes, pos) == Ok::<Vertex, Md3Error>(v),
{
    lemma_widths();
    let f0 = i16_bytes(v.x);
    let f1 = f0 + i16_bytes(v.y);
    let f2 = f1 + i16_bytes(v.z);
    lemma_stored_parts(bytes, pos, f2, i16_bytes(v.normal));
    lemma_stored_parts(bytes, pos, f1, i16_bytes(v.z));
    lemma_stored_parts(bytes, pos, f0, i16_bytes(v.y));
    lemma_i16_read_back(bytes, pos, v.x);
    lemma_i16_read_back(bytes, pos + 2, v.y);
    lemma_i16_read_back(bytes, pos + 4, v.z);
    lemma_i16_read_back(bytes, pos + 6, v.normal);
}

/// A section that was stored is read back as it was, in the stored order.
pub proof fn lemma_section_read_back<T: Record>(bytes: Seq<u8>, pos: int, items: Seq<T::V>)
    requires
        section_stored::<T>(bytes, pos, items),
    ensures
        many_at::<T>(bytes, pos, items.len()) == Ok::<Seq<T::V>, Md3Error>(items),
{
    assert forall|i: int| 0 <= i < items.len() implies T::at(bytes, pos + i * T::width()) == Ok::<
        T::V,
        Md3Error,
    >(#[trigger] items[i]) by {
        T::lemma_read_back(bytes, pos + i * T::width(), items[i]);
    }
    lemma_many_at_in_order::<T>(bytes, pos, items.len(), items);
}

/// A vertex table that was stored is read back as it was.
pub proof fn lemma_vertex_table_read_back(
    bytes: Seq<u8>,
    pos: int,
    verts: nat,
    table: Seq<Seq<Vertex>>,
)
    requires
        vertex_table_stored(bytes, pos, verts, table),
    ensures
        vertex_frames_at(bytes, pos, table.len(), verts) == Ok::<Seq<Seq<Vertex>>, Md3Error>(
            table,
        ),
{
    assert forall|f: int| 0 <= f < table.len() implies many_at::<Vertex>(
        bytes,
        pos + f * (VERTEX_WIDTH * verts),
        verts,
    ) == Ok::<Seq<Vertex>, Md3Error>(#[trigger] table[f]) by {
        lemma_section_read_back::<Vertex>(bytes, pos + f * (VERTEX_WIDTH * verts), table[f]);
    }
    lemma_vertex_frames_in_order(bytes, pos, table.len(), verts, table);
}

/// A surface that was stored is read back as it was.
pub proof fn lemma_surface_read_back(bytes: Seq<u8>, pos: int, s: SurfaceView)
    requires
        surface_stored(bytes, pos, s),
    ensures
        surface_at(bytes, pos) == Ok::<SurfaceView, Md3Error>(s),
{
    reveal(surface_at);
    let h = s.header;
    lemma_surface_header_read_back(bytes, pos, h);
    lemma_section_read_back::<Shader>(bytes, pos + h.ofs_shaders, s.shaders);
    lemma_section_read_back::<Triangle>(bytes, pos + h.ofs_triangles, s.triangles);
    lemma_section_read_back::<TexCoord>(bytes, pos + h.ofs_st, s.tex_coords);
    lemma_vertex_table_read_back(bytes, pos + h.ofs_xyznormal, count_of(h.num_verts), s.vertices);
}

/// Surfaces that were stored are read back as they were, in the stored
/// order.
pub proof fn lemma_surfaces_read_back(bytes: Seq<u8>, pos: int, surfaces: Seq<SurfaceView>)
    requires
        surfaces_stored(bytes, pos, surfaces),
    ensures
        surfaces_at(bytes, pos, surfaces.len()) == Ok::<Seq<SurfaceView>, Md3Error>(surfaces),
    decreases surfaces.len(),
{
    if surfaces.len() == 0 {
        assert(surfaces =~= Seq::<SurfaceView>::empty());
    } else {
        let first = surfaces[0];
        let rest = surfaces.drop_first();
        lemma_surface_read_back(bytes, pos, first);
        lemma_surfaces_read_back(bytes, pos + first.header.ofs_end, rest);
        assert(seq![first] + rest =~= surfaces);
    }
}

/// Decoding gives back what was written. A buffer that is a file of the
/// model `m` decodes to `m`: every integer as it was, every float bit for
/// bit, every name as the text it was, every collection in its order.
pub proof fn lemma_decoding_reads_back(bytes: Seq<u8>, m: Md3View)
    requires
        md3_stored(bytes, m),
    ensures
        md3_from(bytes) == Ok::<Md3View, Md3Error>(m),
{
    let h = m.header;
    lemma_md3_header_read_back(bytes, 0, h);
    lemma_section_read_back::<Frame>(bytes, h.ofs_frames as int, m.frames);
    lemma_section_read_back::<Tag>(bytes, h.ofs_tags as int, m.tags);
    lemma_surfaces_read_back(bytes, h.ofs_surfaces as int, m.surfaces);
}

} // verus!
