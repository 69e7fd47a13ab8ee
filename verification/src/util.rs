//! Iteration utilities: a producer of row-aligned index ranges over a
//! row-major rectangular buffer, and a bounded producer of sprite-row
//! bytes read from consecutive memory positions.

use crate::mem;
use vstd::prelude::*;

verus! {

/// The mathematical content of a `RowIter`: how many rows it has yielded,
/// how many it will yield in all, the linear start of the current row,
/// and the two row lengths.
pub ghost struct RowIterView {
    pub curr: int,
    pub n: int,
    pub row_start_i: int,
    pub this_row_len: int,
    pub full_row_len: int,
}

/// Yields one linear index range per row of a sub-rectangle: the first
/// range starts at `start_y * full_row_len + start_x`, each range covers
/// `this_row_len` contiguous positions, and consecutive ranges are
/// `full_row_len` apart. Finite: exactly `n` ranges.
pub struct RowIter {
    curr: usize,
    n: usize,
    row_start_i: usize,
    this_row_len: usize,
    full_row_len: usize,
}

impl View for RowIter {
    type V = RowIterView;

    closed spec fn view(&self) -> RowIterView {
        RowIterView {
            curr: self.curr as int,
            n: self.n as int,
            row_start_i: self.row_start_i as int,
            this_row_len: self.this_row_len as int,
            full_row_len: self.full_row_len as int,
        }
    }
}

impl RowIter {
    /// No index the iterator will produce can overflow `usize`.
    pub open spec fn wf(&self) -> bool {
        self@.curr < self@.n ==> self@.row_start_i + (self@.n - self@.curr)
            * self@.full_row_len + self@.this_row_len <= usize::MAX
    }

    /// A fresh producer for an `n`-row sub-rectangle of width
    /// `this_row_len` anchored at (`start_x`, `start_y`) in a buffer
    /// whose full rows are `full_row_len` long.
    pub fn new(
        this_row_len: usize,
        full_row_len: usize,
        start_x: usize,
        start_y: usize,
        n: usize,
    ) -> (r: Self)
        requires
            start_y * full_row_len + start_x + n * full_row_len + this_row_len <= usize::MAX,
        ensures
            r.wf(),
            r@.curr == 0,
            r@.n == n,
            r@.row_start_i == start_y * full_row_len + start_x,
            r@.this_row_len == this_row_len,
            r@.full_row_len == full_row_len,
    {
        let row_start_i = start_y * full_row_len + start_x;
        Self { curr: 0, full_row_len, n, row_start_i, this_row_len }
    }

    /// The next row's index range, or `None` once all `n` rows are out.
    /// Each yielded range starts `full_row_len` past the previous one and
    /// spans `this_row_len` positions.
    pub fn next(&mut self) -> (r: Option<core::ops::Range<usize>>)
        requires
            old(self).wf(),
        ensures
            final(self).wf(),
            old(self)@.curr < old(self)@.n ==> {
                &&& r matches Some(rg) && rg.start == old(self)@.row_start_i && rg.end == old(
                    self,
                )@.row_start_i + old(self)@.this_row_len
                &&& final(self)@ == (RowIterView {
                    curr: old(self)@.curr + 1,
                    row_start_i: old(self)@.row_start_i + old(self)@.full_row_len,
                    ..old(self)@
                })
            },
            old(self)@.curr >= old(self)@.n ==> r is None && final(self)@ == old(self)@,
    {
        if self.curr < self.n {
            proof {
                assert(self@.full_row_len <= (self@.n - self@.curr) * self@.full_row_len)
                    by (nonlinear_arith)
                    requires
                        self@.n - self@.curr >= 1,
                        self@.full_row_len >= 0,
                ;
                assert((self@.n - (self@.curr + 1)) * self@.full_row_len == (self@.n - self@.curr)
                    * self@.full_row_len - self@.full_row_len) by (nonlinear_arith);
            }
            let res = self.row_start_i..self.row_start_i + self.this_row_len;
            self.curr += 1;
            self.row_start_i += self.full_row_len;
            return Some(res);
        }
        None
    }
}

/// The mathematical content of a `LimitedBitIter`: the source bytes, how
/// many rows it has yielded, and the bound on how many it will yield.
pub ghost struct LimitedBitIterView {
    pub bytes: Seq<u8>,
    pub curr: int,
    pub n: int,
}

/// Yields up to `rows` sprite-row bytes, read from consecutive memory
/// positions starting at the index register; stops early, returning
/// fewer rows than requested, when the source bytes run out.
pub struct LimitedBitIter {
    bytes: Vec<u8>,
    curr: usize,
    n: usize,
}

impl View for LimitedBitIter {
    type V = LimitedBitIterView;

    closed spec fn view(&self) -> LimitedBitIterView {
        LimitedBitIterView { bytes: self.bytes@, curr: self.curr as int, n: self.n as int }
    }
}

impl LimitedBitIter {
    /// A fresh producer of at most `rows` bytes, reading from the given
    /// memory starting at its index register.
    pub fn new(mem: &mem::Memory, rows: usize) -> (r: Self)
        requires
            mem.wf(),
            mem@.index <= mem::MEM_SIZE,
        ensures
            r@.bytes == mem@.mem.skip(mem@.index),
            r@.curr == 0,
            r@.n == rows,
    {
        Self { bytes: mem.index_iter(), curr: 0, n: rows }
    }

    /// The next sprite-row byte; `None` once `n` rows are out or the
    /// source is exhausted, whichever comes first.
    pub fn next(&mut self) -> (r: Option<u8>)
        ensures
            old(self)@.curr < old(self)@.n && old(self)@.curr < old(self)@.bytes.len() ==> {
                &&& r == Some(old(self)@.bytes[old(self)@.curr])
                &&& final(self)@ == (LimitedBitIterView {
                    curr: old(self)@.curr + 1,
                    ..old(self)@
                })
            },
            !(old(self)@.curr < old(self)@.n && old(self)@.curr < old(self)@.bytes.len())
                ==> r is None && final(self)@ == old(self)@,
    {
        if self.curr < self.n && self.curr < self.bytes.len() {
            let b = self.bytes[self.curr];
            self.curr += 1;
            return Some(b);
        }
        None
    }
}

} // verus!
