//! Fixed-layout uniform blocks.
//!
//! A `UniformBuffer` is an ordered list of fields, each a run of fixed-point
//! scalars whose width is fixed at construction.  Fields are addressed by
//! index; an update writes a slice of exactly the field's width at the
//! field's offset.  The total block size never changes after construction.

use vstd::prelude::*;
use crate::context::Gl;

verus! {

/// Errors raised by uniform-block operations.
#[derive(Clone, Copy, Debug, PartialEq, Eq, Structural)]
pub enum BufferError {
    /// The field index names no field of the block.
    InvalidFieldIndex,
    /// The value written does not have the field's width.
    SizeMismatch,
}

/// The offset, in scalars, of field `i` within a block with the given
/// field widths.
pub open spec fn offset_of(sizes: Seq<u32>, i: int) -> int
    decreases i,
{
    if i <= 0 {
        0
    } else {
        offset_of(sizes, i - 1) + sizes[i - 1]
    }
}

/// The total width of a block with the given field widths.
pub open spec fn total_width(sizes: Seq<u32>) -> int {
    offset_of(sizes, sizes.len() as int)
}

pub proof fn lemma_offset_mono(sizes: Seq<u32>, i: int, j: int)
    requires
        0 <= i <= j,
    ensures
        offset_of(sizes, i) <= offset_of(sizes, j),
    decreases j,
{
    if i < j {
        lemma_offset_mono(sizes, i, j - 1);
    }
}

/// `data` with the range starting at `off` replaced by `value`.
pub open spec fn spliced(data: Seq<i64>, off: int, value: Seq<i64>) -> Seq<i64> {
    Seq::new(
        data.len(),
        |k: int|
            if off <= k < off + value.len() {
                value[k - off]
            } else {
                data[k]
            },
    )
}

/// A typed, fixed-layout block of fixed-point scalars.
pub struct UniformBuffer {
    sizes: Vec<u32>,
    data: Vec<i64>,
}

impl UniformBuffer {
    /// The field widths the block was constructed with.
    pub closed spec fn spec_sizes(&self) -> Seq<u32> {
        self.sizes@
    }

    /// The scalars currently held, all fields in layout order.
    pub closed spec fn spec_data(&self) -> Seq<i64> {
        self.data@
    }

    /// The block holds exactly as many scalars as its layout asks for.
    pub open spec fn wf(&self) -> bool {
        self.spec_data().len() == total_width(self.spec_sizes())
    }

    /// The scalars of field `i`.
    pub open spec fn spec_field(&self, i: int) -> Seq<i64> {
        self.spec_data().subrange(
            offset_of(self.spec_sizes(), i),
            offset_of(self.spec_sizes(), i) + self.spec_sizes()[i],
        )
    }

    /// Creates a zero-filled block with the given field widths.
    pub fn new(_gl: &Gl, sizes: &[u32]) -> (r: Result<UniformBuffer, BufferError>)
        requires
            total_width(sizes@) <= usize::MAX,
        ensures
            r matches Ok(b) && b.wf() && b.spec_sizes() == sizes@ && b.spec_data()
                =~= Seq::new(total_width(sizes@) as nat, |k: int| 0i64),
    {
        let n = sizes.len();
        let mut total: usize = 0;
        let mut i: usize = 0;
        while i < n
            invariant
                i <= n,
                n == sizes@.len(),
                total as int == offset_of(sizes@, i as int),
                total_width(sizes@) <= usize::MAX,
            decreases n - i,
        {
            proof {
                lemma_offset_mono(sizes@, i as int + 1, n as int);
            }
            total = total + (sizes[i] as usize);
            i = i + 1;
        }
        let mut data: Vec<i64> = Vec::new();
        let mut k: usize = 0;
        while k < total
            invariant
                k <= total,
                data@ =~= Seq::new(k as nat, |j: int| 0i64),
            decreases total - k,
        {
            data.push(0);
            k = k + 1;
        }
        let mut size_vec: Vec<u32> = Vec::new();
        let mut j: usize = 0;
        while j < n
            invariant
                j <= n,
                n == sizes@.len(),
                size_vec@ =~= sizes@.subrange(0, j as int),
            decreases n - j,
        {
            size_vec.push(sizes[j]);
            j = j + 1;
        }
        proof {
            assert(size_vec@ =~= sizes@);
        }
        Ok(UniformBuffer { sizes: size_vec, data })
    }

    /// The offset of field `id`, which must exist.
    fn field_offset(&self, id: usize) -> (r: usize)
        requires
            self.wf(),
            id < self.spec_sizes().len(),
        ensures
            r as int == offset_of(self.spec_sizes(), id as int),
    {
        let cap = self.data.len();
        let mut total: usize = 0;
        let mut i: usize = 0;
        while i < id
            invariant
                i <= id,
                id < self.spec_sizes().len(),
                self.wf(),
                cap == self.spec_data().len(),
                total as int == offset_of(self.spec_sizes(), i as int),
            decreases id - i,
        {
            proof {
                lemma_offset_mono(self.spec_sizes(), i as int + 1, self.spec_sizes().len() as int);
            }
            total = total + (self.sizes[i] as usize);
            i = i + 1;
        }
        total
    }

    /// Writes `value` into field `id`.  Succeeds exactly when the index
    /// names a field and the value has the field's width; the rest of the
    /// block is untouched.  On failure the block is unchanged.
    pub fn update(&mut self, id: usize, value: &[i64]) -> (r: Result<(), BufferError>)
        requires
            old(self).wf(),
        ensures
            final(self).wf(),
            final(self).spec_sizes() == old(self).spec_sizes(),
            match r {
                Ok(()) => id < old(self).spec_sizes().len() && value@.len() == old(
                    self,
                ).spec_sizes()[id as int] && final(self).spec_data() =~= spliced(
                    old(self).spec_data(),
                    offset_of(old(self).spec_sizes(), id as int),
                    value@,
                ),
                Err(BufferError::InvalidFieldIndex) => id >= old(self).spec_sizes().len()
                    && final(self).spec_data() == old(self).spec_data(),
                Err(BufferError::SizeMismatch) => id < old(self).spec_sizes().len() && value@.len()
                    != old(self).spec_sizes()[id as int] && final(self).spec_data() == old(
                    self,
                ).spec_data(),
            },
    {
        if id >= self.sizes.len() {
            return Err(BufferError::InvalidFieldIndex);
        }
        let width = self.sizes[id] as usize;
        if value.len() != width {
            return Err(BufferError::SizeMismatch);
        }
        let off = self.field_offset(id);
        proof {
            lemma_offset_mono(self.spec_sizes(), id as int + 1, self.spec_sizes().len() as int);
        }
        let cap = self.data.len();
        let mut k: usize = 0;
        while k < width
            invariant
                k <= width,
                id < self.spec_sizes().len(),
                width == self.spec_sizes()[id as int],
                value@.len() == width,
                off as int == offset_of(self.spec_sizes(), id as int),
                off + width <= self.spec_data().len(),
                cap == self.spec_data().len(),
                self.wf(),
                self.spec_sizes() == old(self).spec_sizes(),
                self.spec_data().len() == old(self).spec_data().len(),
                forall|j: int|
                    0 <= j < self.spec_data().len() && !(off <= j < off + k)
                        ==> self.spec_data()[j] == old(self).spec_data()[j],
                forall|j: int|
                    off <= j < off + k ==> self.spec_data()[j] == value@[j - off],
            decreases width - k,
        {
            self.data.set(off + k, value[k]);
            k = k + 1;
        }
        Ok(())
    }

    /// Reads field `id` back out of the block.  Succeeds exactly when the
    /// index names a field.
    pub fn get(&self, id: usize) -> (r: Result<Vec<i64>, BufferError>)
        requires
            self.wf(),
        ensures
            match r {
                Ok(v) => id < self.spec_sizes().len() && v@ =~= self.spec_field(id as int),
                Err(e) => e == BufferError::InvalidFieldIndex && id >= self.spec_sizes().len(),
            },
    {
        if id >= self.sizes.len() {
            return Err(BufferError::InvalidFieldIndex);
        }
        let width = self.sizes[id] as usize;
        let off = self.field_offset(id);
        proof {
            lemma_offset_mono(self.spec_sizes(), id as int + 1, self.spec_sizes().len() as int);
        }
        let cap = self.data.len();
        let mut out: Vec<i64> = Vec::new();
        let mut k: usize = 0;
        while k < width
            invariant
                k <= width,
                id < self.spec_sizes().len(),
                width == self.spec_sizes()[id as int],
                off as int == offset_of(self.spec_sizes(), id as int),
                off + width <= self.spec_data().len(),
                cap == self.spec_data().len(),
                self.wf(),
                out@.len() == k,
                forall|j: int| 0 <= j < k ==> out@[j] == self.spec_data()[off + j],
            decreases width - k,
        {
            out.push(self.data[off + k]);
            k = k + 1;
        }
        Ok(out)
    }
}

} // verus!
