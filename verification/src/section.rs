//! The section assembler: one record decoder, run a given number of times.
//!
//! It reads from where the cursor stands. To seek to the section is the
//! caller's part, because a file's offsets count from its start and a
//! surface's from the surface.

use crate::error::Md3Error;
use crate::format::{count_of, many_at, prepend, vertex_frames_at, VERTEX_WIDTH};
use crate::reader::{outcome, Reader};
use crate::records::Record;
use crate::types::Vertex;
use vstd::prelude::*;

verus! {

/// Putting `a` and then `b` in front is putting `a + b` in front.
pub proof fn lemma_prepend_twice<V>(a: Seq<V>, b: Seq<V>, rest: Result<Seq<V>, Md3Error>)
    ensures
        prepend(a, prepend(b, rest)) == prepend(a + b, rest),
{
    if let Ok(more) = rest {
        assert(a + (b + more) =~= (a + b) + more);
    }
}

/// The number of records that a count field asks for: the field's value, or
/// `usize::MAX` where that is negative.
pub fn record_count(n: i32) -> (count: usize)
    ensures
        count == count_of(n),
{
    if n >= 0 {
        n as usize
    } else {
        usize::MAX
    }
}

impl<'a> Reader<'a> {
    /// Reads `count` records, one after another, and moves the cursor past
    /// them. The records come back in the order in which they are stored.
    /// The first record that fails ends the read with its error.
    pub fn read_many<T: Record>(&mut self, count: usize) -> (r: Result<Vec<T>, Md3Error>)
        ensures
            outcome(r) == many_at::<T>(old(self)@.bytes, old(self)@.pos, count as nat),
            final(self)@ == old(self)@.after(count * T::width(), r is Ok),
    {
        let ghost bytes = self@.bytes;
        let ghost start = self@.pos;
        let mut cur = *self;
        let mut items: Vec<T> = Vec::new();
        let mut i: usize = 0;
        while i < count
            invariant
                i <= count,
                *self == *old(self),
                bytes == self@.bytes,
                start == self@.pos,
                cur@.bytes == bytes,
                cur@.pos == start + i * T::width(),
                many_at::<T>(bytes, start, count as nat) == prepend(
                    items.deep_view(),
                    many_at::<T>(bytes, cur@.pos, (count - i) as nat),
                ),
            decreases count - i,
        {
            let ghost before = items.deep_view();
            let ghost pos = cur@.pos;
            match T::read(&mut cur) {
                Ok(item) => {
                    proof {
                        let rest = many_at::<T>(bytes, pos + T::width(), (count - i - 1) as nat);
                        lemma_prepend_twice(before, seq![item.deep_view()], rest);
                        assert((i + 1) * T::width() == i * T::width() + T::width())
                            by (nonlinear_arith);
                    }
                    items.push(item);
                    assert(items.deep_view() =~= before + seq![item.deep_view()]);
                },
                Err(e) => {
                    return Err(e);
                },
            }
            i = i + 1;
        }
        *self = cur;
        Ok(items)
    }

    /// Reads a vertex table of `frames` frames with `verts` vertices each,
    /// frame after frame, and moves the cursor past it. Item `f` of the
    /// result holds the vertices of frame `f` in the order in which they are
    /// stored.
    pub fn read_vertex_frames(&mut self, frames: usize, verts: usize) -> (r: Result<
        Vec<Vec<Vertex>>,
        Md3Error,
    >)
        ensures
            outcome(r) == vertex_frames_at(
                old(self)@.bytes,
                old(self)@.pos,
                frames as nat,
                verts as nat,
            ),
            final(self)@ == old(self)@.after(frames * (VERTEX_WIDTH * verts), r is Ok),
    {
        let ghost bytes = self@.bytes;
        let ghost start = self@.pos;
        let ghost stride = VERTEX_WIDTH * verts;
        let mut cur = *self;
        let mut table: Vec<Vec<Vertex>> = Vec::new();
        let mut f: usize = 0;
        while f < frames
            invariant
                f <= frames,
                *self == *old(self),
                bytes == self@.bytes,
                start == self@.pos,
                stride == VERTEX_WIDTH * verts,
                cur@.bytes == bytes,
                cur@.pos == start + f * stride,
                vertex_frames_at(bytes, start, frames as nat, verts as nat) == prepend(
                    table.deep_view(),
                    vertex_frames_at(bytes, cur@.pos, (frames - f) as nat, verts as nat),
                ),
            decreases frames - f,
        {
            let ghost before = table.deep_view();
            let ghost pos = cur@.pos;
            match cur.read_many::<Vertex>(verts) {
                Ok(frame) => {
                    proof {
                        let rest = vertex_frames_at(
                            bytes,
                            pos + stride,
                            (frames - f - 1) as nat,
                            verts as nat,
                        );
                        lemma_prepend_twice(before, seq![frame.deep_view()], rest);
                        assert((f + 1) * stride == f * stride + stride) by (nonlinear_arith);
                    }
                    table.push(frame);
                    assert(table.deep_view() =~= before + seq![frame.deep_view()]);
                },
                Err(e) => {
                    return Err(e);
                },
            }
            f = f + 1;
        }
        *self = cur;
        Ok(table)
    }
}

} // verus!
