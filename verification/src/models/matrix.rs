//! Compact row-major bit matrix, one bit per cell, eight cells per byte.

use vstd::prelude::*;

verus! {

/// Whether bit `k` (counted from the least significant end) of `b` is set.
pub open spec fn byte_bit(b: u8, k: int) -> bool {
    (b >> (k as u8)) & 1u8 == 1u8
}

/// Whether packed bit `i` of a byte sequence is set: bit `i % 8` of byte `i / 8`.
pub open spec fn packed_bit(bytes: Seq<u8>, i: int) -> bool {
    byte_bit(bytes[i / 8], i % 8)
}

/// Number of bytes that hold `n` packed bits.
pub open spec fn bytes_for_bits(n: int) -> int {
    (n + 7) / 8
}

proof fn lemma_zero_byte(k: u8)
    by (bit_vector)
    requires
        k < 8,
    ensures
        (0u8 >> k) & 1u8 == 0u8,
{
}

proof fn lemma_or_bit(b: u8, k: u8, j: u8)
    by (bit_vector)
    requires
        k < 8,
        j < 8,
    ensures
        ((b | (1u8 << k)) >> j) & 1u8 == (if j == k { 1u8 } else { (b >> j) & 1u8 }),
{
}

proof fn lemma_clear_bit(b: u8, k: u8, j: u8)
    by (bit_vector)
    requires
        k < 8,
        j < 8,
    ensures
        ((b & !(1u8 << k)) >> j) & 1u8 == (if j == k { 0u8 } else { (b >> j) & 1u8 }),
{
}

proof fn lemma_xor_bit(b: u8, k: u8, j: u8)
    by (bit_vector)
    requires
        k < 8,
        j < 8,
    ensures
        (((b ^ (1u8 << k)) >> j) & 1u8 == 1u8) == (if j == k {
            (b >> j) & 1u8 != 1u8
        } else {
            (b >> j) & 1u8 == 1u8
        }),
{
}

pub proof fn lemma_cell_index(w: int, h: int, x: int, y: int)
    requires
        0 <= x < w,
        0 <= y < h,
    ensures
        0 <= y * w + x < w * h,
{
    assert(y * w + x < w * h) by (nonlinear_arith)
        requires 0 <= x < w, 0 <= y < h;
}

pub proof fn lemma_cell_index_injective(w: int, x: int, y: int, a: int, b: int)
    requires
        0 <= x < w,
        0 <= a < w,
        0 <= y,
        0 <= b,
        y * w + x == b * w + a,
    ensures
        x == a && y == b,
{
    if y < b {
        assert((b - y) * w >= w) by (nonlinear_arith)
            requires b - y >= 1, w >= 0;
        assert(b * w - y * w == (b - y) * w) by (nonlinear_arith);
    } else if y > b {
        assert((y - b) * w >= w) by (nonlinear_arith)
            requires y - b >= 1, w >= 0;
        assert(y * w - b * w == (y - b) * w) by (nonlinear_arith);
    }
}

/// A `width` x `height` grid of bits packed row-major, least significant bit first.
/// `true` stands for a dark (black) cell.
#[derive(Debug, Clone)]
pub struct BitMatrix {
    width: usize,
    height: usize,
    data: Vec<u8>,
}

impl BitMatrix {
    /// The number of columns.
    pub closed spec fn spec_width(&self) -> usize {
        self.width
    }

    /// The number of rows.
    pub closed spec fn spec_height(&self) -> usize {
        self.height
    }

    /// The packed storage bytes.
    pub closed spec fn bytes(&self) -> Seq<u8> {
        self.data@
    }

    /// The storage holds exactly enough bytes for the cells, and every bit
    /// past the last cell is clear.
    pub open spec fn wf(&self) -> bool {
        &&& self.spec_width() * self.spec_height() + 7 <= usize::MAX
        &&& self.bytes().len() == bytes_for_bits(self.spec_width() * self.spec_height())
        &&& forall|i: int|
            self.spec_width() * self.spec_height() <= i < 8 * self.bytes().len()
                ==> !#[trigger] packed_bit(self.bytes(), i)
    }

    /// The value of cell `(x, y)`; cells outside the grid read as `false`.
    pub open spec fn cell(&self, x: int, y: int) -> bool {
        &&& 0 <= x < self.spec_width()
        &&& 0 <= y < self.spec_height()
        &&& packed_bit(self.bytes(), y * self.spec_width() + x)
    }

    /// Every cell of the grid is clear.
    pub open spec fn all_clear(&self) -> bool {
        forall|x: int, y: int| !#[trigger] self.cell(x, y)
    }

    proof fn lemma_all_zero_bytes(&self)
        requires
            forall|i: int| 0 <= i < self.bytes().len() ==> self.bytes()[i] == 0u8,
            self.bytes().len() == bytes_for_bits(self.spec_width() * self.spec_height()),
        ensures
            forall|i: int| 0 <= i < 8 * self.bytes().len() ==> !#[trigger] packed_bit(self.bytes(), i),
            self.all_clear(),
    {
        assert forall|x: int, y: int| !#[trigger] self.cell(x, y) by {
            if 0 <= x < self.spec_width() && 0 <= y < self.spec_height() {
                lemma_cell_index(self.spec_width() as int, self.spec_height() as int, x, y);
                lemma_zero_byte(((y * self.spec_width() + x) % 8) as u8);
            }
        }
        assert forall|i: int| 0 <= i < 8 * self.bytes().len() implies !#[trigger] packed_bit(
            self.bytes(),
            i,
        ) by {
            lemma_zero_byte((i % 8) as u8);
        }
    }

    /// Create a grid of the given size with every cell clear.
    pub fn new(width: usize, height: usize) -> (m: Self)
        requires
            width * height + 7 <= usize::MAX,
        ensures
            m.wf(),
            m.spec_width() == width,
            m.spec_height() == height,
            m.all_clear(),
    {
        let bytes_needed = (width * height + 7) / 8;
        let m = BitMatrix { width, height, data: vec![0u8; bytes_needed] };
        proof {
            assert forall|i: int| 0 <= i < m.bytes().len() implies m.bytes()[i] == 0u8 by {
                assert(cloned::<u8>(0u8, m.data@[i]));
            }
            m.lemma_all_zero_bytes();
        }
        m
    }

    /// Re-initialise to the given size with every cell clear.
    pub fn reset(&mut self, width: usize, height: usize)
        requires
            width * height + 7 <= usize::MAX,
        ensures
            final(self).wf(),
            final(self).spec_width() == width,
            final(self).spec_height() == height,
            final(self).all_clear(),
    {
        *self = BitMatrix::new(width, height);
    }

    /// The number of columns.
    #[verifier::when_used_as_spec(spec_width)]
    pub fn width(&self) -> (w: usize)
        ensures
            w == self.spec_width(),
    {
        self.width
    }

    /// The number of rows.
    #[verifier::when_used_as_spec(spec_height)]
    pub fn height(&self) -> (h: usize)
        ensures
            h == self.spec_height(),
    {
        self.height
    }

    /// The value of cell `(x, y)`, or `false` outside the grid.
    pub fn get(&self, x: usize, y: usize) -> (b: bool)
        requires
            self.wf(),
        ensures
            b == self.cell(x as int, y as int),
    {
        if x >= self.width || y >= self.height {
            return false;
        }
        proof {
            lemma_cell_index(self.width as int, self.height as int, x as int, y as int);
        }
        let index = y * self.width + x;
        let byte_index = index / 8;
        let bit_index = index % 8;
        (self.data[byte_index] >> (bit_index as u8)) & 1u8 == 1u8
    }

    /// Set cell `(x, y)` to `value`; positions outside the grid are ignored.
    pub fn set(&mut self, x: usize, y: usize, value: bool)
        requires
            old(self).wf(),
        ensures
            final(self).wf(),
            final(self).spec_width() == old(self).spec_width(),
            final(self).spec_height() == old(self).spec_height(),
            forall|a: int, b: int|
                #[trigger] final(self).cell(a, b) == if a == x && b == y && x < old(self).spec_width()
                    && y < old(self).spec_height() {
                    value
                } else {
                    old(self).cell(a, b)
                },
    {
        if x >= self.width || y >= self.height {
            return;
        }
        proof {
            lemma_cell_index(self.width as int, self.height as int, x as int, y as int);
        }
        let ghost old_bytes = self.data@;
        let index = y * self.width + x;
        let byte_index = index / 8;
        let bit_index = (index % 8) as u8;
        let byte = self.data[byte_index];
        let new_byte = if value {
            byte | (1u8 << bit_index)
        } else {
            byte & !(1u8 << bit_index)
        };
        self.data.set(byte_index, new_byte);
        proof {
            let w = self.width as int;
            assert forall|i: int| 0 <= i < 8 * self.data@.len() implies #[trigger] packed_bit(self.data@, i)
                == if i == index { value } else { packed_bit(old_bytes, i) } by {
                if i / 8 == byte_index as int {
                    if value {
                        lemma_or_bit(byte, bit_index, (i % 8) as u8);
                    } else {
                        lemma_clear_bit(byte, bit_index, (i % 8) as u8);
                    }
                }
            }
            assert forall|a: int, b: int| #[trigger] self.cell(a, b) == if a == x && b == y {
                value
            } else {
                old(self).cell(a, b)
            } by {
                if 0 <= a < w && 0 <= b < self.height {
                    lemma_cell_index(w, self.height as int, a, b);
                    if a != x || b != y {
                        if b * w + a == y * w + x {
                            lemma_cell_index_injective(w, x as int, y as int, a, b);
                        }
                    }
                }
            }
        }
    }

    /// Flip cell `(x, y)`; positions outside the grid are ignored.
    pub fn toggle(&mut self, x: usize, y: usize)
        requires
            old(self).wf(),
        ensures
            final(self).wf(),
            final(self).spec_width() == old(self).spec_width(),
            final(self).spec_height() == old(self).spec_height(),
            forall|a: int, b: int|
                #[trigger] final(self).cell(a, b) == if a == x && b == y && x < old(self).spec_width()
                    && y < old(self).spec_height() {
                    !old(self).cell(a, b)
                } else {
                    old(self).cell(a, b)
                },
    {
        if x >= self.width || y >= self.height {
            return;
        }
        proof {
            lemma_cell_index(self.width as int, self.height as int, x as int, y as int);
        }
        let ghost old_bytes = self.data@;
        let index = y * self.width + x;
        let byte_index = index / 8;
        let bit_index = (index % 8) as u8;
        let byte = self.data[byte_index];
        self.data.set(byte_index, byte ^ (1u8 << bit_index));
        proof {
            let w = self.width as int;
            assert forall|i: int| 0 <= i < 8 * self.data@.len() implies #[trigger] packed_bit(self.data@, i)
                == if i == index { !packed_bit(old_bytes, i) } else { packed_bit(old_bytes, i) } by {
                if i / 8 == byte_index as int {
                    lemma_xor_bit(byte, bit_index, (i % 8) as u8);
                }
            }
            assert forall|a: int, b: int| #[trigger] self.cell(a, b) == if a == x && b == y {
                !old(self).cell(a, b)
            } else {
                old(self).cell(a, b)
            } by {
                if 0 <= a < w && 0 <= b < self.height {
                    lemma_cell_index(w, self.height as int, a, b);
                    if a != x || b != y {
                        if b * w + a == y * w + x {
                            lemma_cell_index_injective(w, x as int, y as int, a, b);
                        }
                    }
                }
            }
        }
    }

    /// Clear every cell, keeping the dimensions.
    pub fn clear(&mut self)
        requires
            old(self).wf(),
        ensures
            final(self).wf(),
            final(self).spec_width() == old(self).spec_width(),
            final(self).spec_height() == old(self).spec_height(),
            final(self).all_clear(),
    {
        let n = self.data.len();
        let mut i: usize = 0;
        while i < n
            invariant
                n == self.data@.len(),
                n == old(self).data@.len(),
                self.width == old(self).width,
                self.height == old(self).height,
                i <= n,
                forall|j: int| 0 <= j < i ==> self.data@[j] == 0u8,
            decreases n - i,
        {
            self.data.set(i, 0u8);
            i = i + 1;
        }
        proof {
            self.lemma_all_zero_bytes();
        }
    }

    /// The packed storage: cell `(x, y)` is bit `(y * width + x) % 8` of byte
    /// `(y * width + x) / 8`, and every bit past the last cell is clear.
    pub fn as_bytes(&self) -> (bytes: &[u8])
        requires
            self.wf(),
        ensures
            bytes@ == self.bytes(),
    {
        self.data.as_slice()
    }
}

} // verus!
