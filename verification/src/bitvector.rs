//! Constant bit vectors of up to eight bytes.
//!
//! A [`Bitvector`] stores the two's-complement bit pattern of a machine
//! constant together with its width in bytes.  All arithmetic on it is
//! defined over that pattern: negation and resizing act at the vector's own
//! width, and reading the vector as a signed integer sign-extends the
//! pattern to 64 bits.

use vstd::prelude::*;

verus! {

/// A size, given in bytes.
#[derive(Clone, Copy, PartialEq, Eq, Structural, Debug, Hash)]
pub struct ByteSize {
    /// The number of bytes.
    pub bytes: u64,
}

impl ByteSize {
    /// Creates a new size from a number of bytes.
    pub fn new(bytes: u64) -> (s: ByteSize)
        ensures
            s.bytes == bytes,
    {
        ByteSize { bytes }
    }
}

/// The number of distinct bit patterns of a vector of the given width:
/// `2^(8 * bytes)`.  Widths outside `1..=8` bytes do not occur in lifted
/// code; they are treated as full 64-bit vectors so that every operation
/// below is total.
pub open spec fn width_bound(bytes: u64) -> int {
    if bytes == 1 {
        0x100
    } else if bytes == 2 {
        0x1_0000
    } else if bytes == 3 {
        0x100_0000
    } else if bytes == 4 {
        0x1_0000_0000
    } else if bytes == 5 {
        0x100_0000_0000
    } else if bytes == 6 {
        0x1_0000_0000_0000
    } else if bytes == 7 {
        0x100_0000_0000_0000
    } else {
        0x1_0000_0000_0000_0000
    }
}

/// A constant bit vector: a two's-complement bit pattern of `width` bytes,
/// held zero-extended in a 64-bit word.
#[derive(Clone, Copy, PartialEq, Eq, Structural, Debug, Hash)]
pub struct Bitvector {
    /// The bit pattern, zero-extended to 64 bits.
    pub value: u64,
    /// The width of the vector.
    pub width: ByteSize,
}

impl Bitvector {
    /// The bit pattern with any stray bits above the width cleared.
    pub open spec fn spec_pattern(self) -> int {
        self.value as int % width_bound(self.width.bytes)
    }

    /// The vector's value read as a signed integer: the pattern,
    /// sign-extended from the vector's width.
    pub open spec fn spec_to_i64(self) -> i64 {
        if self.spec_pattern() < width_bound(self.width.bytes) / 2 {
            self.spec_pattern() as i64
        } else {
            (self.spec_pattern() - width_bound(self.width.bytes)) as i64
        }
    }

    /// The two's-complement negation of the vector, at its own width.
    pub open spec fn spec_negate(self) -> Bitvector {
        Bitvector {
            value: ((width_bound(self.width.bytes) - self.spec_pattern()) % width_bound(
                self.width.bytes,
            )) as u64,
            width: self.width,
        }
    }

    /// The vector zero-extended or truncated to `width` bytes.
    pub open spec fn spec_resize_unsigned(self, width: ByteSize) -> Bitvector {
        Bitvector { value: (self.value as int % width_bound(width.bytes)) as u64, width }
    }

    /// Creates a vector of the given width from a bit pattern; bits above
    /// the width are cleared.
    pub fn new(value: u64, width: ByteSize) -> (r: Bitvector)
        ensures
            r.width == width,
            r.value == value as int % width_bound(width.bytes),
    {
        let bytes = width.bytes;
        if 1 <= bytes && bytes <= 7 {
            let bound = Self::bound_exec(bytes);
            Bitvector { value: value % bound, width }
        } else {
            proof {
                let v = value;
                assert(v as int % 0x1_0000_0000_0000_0000 == v as int) by (bit_vector);
            }
            Bitvector { value, width }
        }
    }

    /// An eight-byte vector holding the two's-complement pattern of `v`.
    pub fn from_i64(v: i64) -> (r: Bitvector)
        ensures
            r.width.bytes == 8,
            r.value == v as u64,
    {
        Bitvector { value: v as u64, width: ByteSize { bytes: 8 } }
    }

    /// `width_bound` for widths of one to seven bytes.
    fn bound_exec(bytes: u64) -> (b: u64)
        requires
            1 <= bytes <= 7,
        ensures
            b == width_bound(bytes),
    {
        if bytes == 1 {
            0x100
        } else if bytes == 2 {
            0x1_0000
        } else if bytes == 3 {
            0x100_0000
        } else if bytes == 4 {
            0x1_0000_0000
        } else if bytes == 5 {
            0x100_0000_0000
        } else if bytes == 6 {
            0x1_0000_0000_0000
        } else {
            0x100_0000_0000_0000
        }
    }

    /// The pattern with stray bits above the width cleared.
    fn pattern(&self) -> (p: u64)
        ensures
            p == self.spec_pattern(),
    {
        let bytes = self.width.bytes;
        if 1 <= bytes && bytes <= 7 {
            self.value % Self::bound_exec(bytes)
        } else {
            proof {
                let v = self.value;
                assert(v as int % 0x1_0000_0000_0000_0000 == v as int) by (bit_vector);
            }
            self.value
        }
    }

    /// Reads the vector as a signed 64-bit integer, sign-extending from its
    /// width.
    pub fn to_i64(&self) -> (r: i64)
        ensures
            r == self.spec_to_i64(),
    {
        let p = self.pattern();
        let bytes = self.width.bytes;
        if 1 <= bytes && bytes <= 7 {
            let bound = Self::bound_exec(bytes);
            if p < bound / 2 {
                p as i64
            } else {
                (p as i64) - (bound as i64)
            }
        } else {
            proof {
                let v = self.value;
                assert((v as int % 0x1_0000_0000_0000_0000) == v as int) by (bit_vector);
                assert(v < 0x8000_0000_0000_0000 ==> v as i64 == v as int as i64) by (bit_vector);
                assert(v >= 0x8000_0000_0000_0000 ==> v as i64 == (v as int
                    - 0x1_0000_0000_0000_0000) as i64) by (bit_vector);
            }
            p as i64
        }
    }

    /// The two's-complement negation of the vector, at its own width.
    pub fn negate(&self) -> (r: Bitvector)
        ensures
            r == self.spec_negate(),
    {
        let p = self.pattern();
        let bytes = self.width.bytes;
        if 1 <= bytes && bytes <= 7 {
            let bound = Self::bound_exec(bytes);
            if p == 0 {
                Bitvector { value: 0, width: self.width }
            } else {
                Bitvector { value: bound - p, width: self.width }
            }
        } else {
            proof {
                let v = self.value;
                assert((v as int % 0x1_0000_0000_0000_0000) == v as int) by (bit_vector);
                assert(0u64.wrapping_sub(v) as int == (0x1_0000_0000_0000_0000 - v as int)
                    % 0x1_0000_0000_0000_0000) by (bit_vector);
            }
            Bitvector { value: 0u64.wrapping_sub(p), width: self.width }
        }
    }

    /// Zero-extends or truncates the vector to the given width.
    pub fn resize_unsigned(&self, width: ByteSize) -> (r: Bitvector)
        ensures
            r == self.spec_resize_unsigned(width),
    {
        Bitvector::new(self.value, width)
    }
}

} // verus!
