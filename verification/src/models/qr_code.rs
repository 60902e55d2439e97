//! QR symbol metadata: version, error-correction level and data mask.

use vstd::prelude::*;

verus! {

/// QR code version.
#[derive(Debug, Clone, Copy, PartialEq, Eq, Structural)]
pub enum Version {
    /// Model 1 QR code (versions 1-14)
    Model1(u8),
    /// Model 2 QR code (versions 1-40)
    Model2(u8),
    /// Micro QR code (versions M1-M4)
    Micro(u8),
}

impl Version {
    /// The version number carried by any variant.
    pub open spec fn spec_number(self) -> u8 {
        match self {
            Version::Model1(v) => v,
            Version::Model2(v) => v,
            Version::Micro(v) => v,
        }
    }

    /// The side length in modules: `4v + 17` for Model 1 and Model 2, and
    /// 11, 13, 15, 17 for Micro M1-M4 (0 for any other Micro number).
    pub open spec fn spec_size(self) -> usize {
        match self {
            Version::Model1(v) => (4 * v + 17) as usize,
            Version::Model2(v) => (4 * v + 17) as usize,
            Version::Micro(v) => if 1 <= v <= 4 { (2 * v + 9) as usize } else { 0 },
        }
    }

    /// Get the version number (1-40 for Model 2)
    pub fn number(&self) -> (n: u8)
        ensures
            n == self.spec_number(),
    {
        match self {
            Version::Model1(v) => *v,
            Version::Model2(v) => *v,
            Version::Micro(v) => *v,
        }
    }

    /// Get the size in modules (width = height)
    pub fn size(&self) -> (s: usize)
        ensures
            s == self.spec_size(),
    {
        match self {
            Version::Model1(v) => 4 * (*v as usize) + 17,
            Version::Model2(v) => 4 * (*v as usize) + 17,
            Version::Micro(v) => match v {
                1 => 11,
                2 => 13,
                3 => 15,
                4 => 17,
                _ => 0,
            },
        }
    }

    /// Check if this is a Micro QR code
    pub fn is_micro(&self) -> (b: bool)
        ensures
            b == (*self is Micro),
    {
        matches!(self, Version::Micro(_))
    }
}

/// Error correction level
#[derive(Debug, Clone, Copy, PartialEq, Eq, Structural)]
pub enum ECLevel {
    /// Low (~7% recovery capacity)
    L,
    /// Medium (~15% recovery capacity)
    M,
    /// Quartile (~25% recovery capacity)
    Q,
    /// High (~30% recovery capacity)
    H,
}

/// The level that a two-bit code names: 0 is L, 1 is M, 2 is Q, 3 is H.
pub open spec fn ec_level_of_code(code: int) -> ECLevel {
    if code == 0 {
        ECLevel::L
    } else if code == 1 {
        ECLevel::M
    } else if code == 2 {
        ECLevel::Q
    } else {
        ECLevel::H
    }
}

/// The two-bit code of a level.
pub open spec fn ec_level_code(level: ECLevel) -> int {
    match level {
        ECLevel::L => 0,
        ECLevel::M => 1,
        ECLevel::Q => 2,
        ECLevel::H => 3,
    }
}

/// Error-correction codewords for a level: a per-version base (7, 10, 15 for
/// Model 2 versions 1-3, 20 for later Model 2 versions, 7 for other models)
/// times 1, 2, 3 or 4 for L, M, Q, H.
pub open spec fn spec_ec_codewords(level: ECLevel, version: Version) -> usize {
    let base: int = match version {
        Version::Model2(v) => if v == 1 {
            7
        } else if v == 2 {
            10
        } else if v == 3 {
            15
        } else {
            20
        },
        _ => 7,
    };
    (base * (ec_level_code(level) + 1)) as usize
}

proof fn lemma_low_bits(bits: u8)
    by (bit_vector)
    ensures
        bits & 0x03u8 == bits % 4,
        bits & 0x07u8 == bits % 8,
{
}

impl ECLevel {
    /// Get error correction level from bits (00=L, 01=M, 10=Q, 11=H); only
    /// the two low bits are read.
    pub fn from_bits(bits: u8) -> (level: Option<Self>)
        ensures
            level == Some(ec_level_of_code((bits % 4) as int)),
    {
        proof {
            lemma_low_bits(bits);
        }
        match bits & 0x03 {
            0 => Some(ECLevel::L),
            1 => Some(ECLevel::M),
            2 => Some(ECLevel::Q),
            _ => Some(ECLevel::H),
        }
    }

    /// Get total error correction codewords for version and level
    pub fn ec_codewords(&self, version: &Version) -> (n: usize)
        ensures
            n == spec_ec_codewords(*self, *version),
    {
        let base: usize = match version {
            Version::Model2(v) => match *v {
                1 => 7,
                2 => 10,
                3 => 15,
                _ => 20,
            },
            _ => 7,
        };
        match self {
            ECLevel::L => base,
            ECLevel::M => base * 2,
            ECLevel::Q => base * 3,
            ECLevel::H => base * 4,
        }
    }
}

/// Mask pattern (0-7)
#[derive(Debug, Clone, Copy, PartialEq, Eq, Structural)]
pub enum MaskPattern {
    /// (i + j) % 2 == 0
    Pattern0,
    /// i % 2 == 0
    Pattern1,
    /// j % 3 == 0
    Pattern2,
    /// (i + j) % 3 == 0
    Pattern3,
    /// (i/2 + j/3) % 2 == 0
    Pattern4,
    /// (i*j)%2 + (i*j)%3 == 0
    Pattern5,
    /// ((i*j)%2 + (i*j)%3) % 2 == 0
    Pattern6,
    /// ((i+j)%2 + (i*j)%3) % 2 == 0
    Pattern7,
}

/// The mask pattern that a three-bit code names.
pub open spec fn mask_of_code(code: int) -> MaskPattern {
    if code == 0 {
        MaskPattern::Pattern0
    } else if code == 1 {
        MaskPattern::Pattern1
    } else if code == 2 {
        MaskPattern::Pattern2
    } else if code == 3 {
        MaskPattern::Pattern3
    } else if code == 4 {
        MaskPattern::Pattern4
    } else if code == 5 {
        MaskPattern::Pattern5
    } else if code == 6 {
        MaskPattern::Pattern6
    } else {
        MaskPattern::Pattern7
    }
}

/// The ISO/IEC 18004 data-mask condition for module row `i`, column `j`.
pub open spec fn mask_condition(mask: MaskPattern, i: int, j: int) -> bool {
    match mask {
        MaskPattern::Pattern0 => (i + j) % 2 == 0,
        MaskPattern::Pattern1 => i % 2 == 0,
        MaskPattern::Pattern2 => j % 3 == 0,
        MaskPattern::Pattern3 => (i + j) % 3 == 0,
        MaskPattern::Pattern4 => (i / 2 + j / 3) % 2 == 0,
        MaskPattern::Pattern5 => (i * j) % 2 + (i * j) % 3 == 0,
        MaskPattern::Pattern6 => ((i * j) % 2 + (i * j) % 3) % 2 == 0,
        MaskPattern::Pattern7 => ((i + j) % 2 + (i * j) % 3) % 2 == 0,
    }
}

/// The arithmetic of the mask condition fits in `usize`.
pub open spec fn mask_fits(mask: MaskPattern, i: int, j: int) -> bool {
    match mask {
        MaskPattern::Pattern0 | MaskPattern::Pattern3 => i + j <= usize::MAX,
        MaskPattern::Pattern5 | MaskPattern::Pattern6 => i * j <= usize::MAX,
        MaskPattern::Pattern7 => i + j <= usize::MAX && i * j <= usize::MAX,
        _ => true,
    }
}

impl MaskPattern {
    /// Get mask pattern from bits; only the three low bits are read.
    pub fn from_bits(bits: u8) -> (mask: Option<Self>)
        ensures
            mask == Some(mask_of_code((bits % 8) as int)),
    {
        proof {
            lemma_low_bits(bits);
        }
        match bits & 0x07 {
            0 => Some(MaskPattern::Pattern0),
            1 => Some(MaskPattern::Pattern1),
            2 => Some(MaskPattern::Pattern2),
            3 => Some(MaskPattern::Pattern3),
            4 => Some(MaskPattern::Pattern4),
            5 => Some(MaskPattern::Pattern5),
            6 => Some(MaskPattern::Pattern6),
            _ => Some(MaskPattern::Pattern7),
        }
    }

    /// Check if module at (i, j) should be masked
    pub fn is_masked(&self, i: usize, j: usize) -> (b: bool)
        requires
            mask_fits(*self, i as int, j as int),
        ensures
            b == mask_condition(*self, i as int, j as int),
    {
        match self {
            MaskPattern::Pattern0 => (i + j) % 2 == 0,
            MaskPattern::Pattern1 => i % 2 == 0,
            MaskPattern::Pattern2 => j % 3 == 0,
            MaskPattern::Pattern3 => (i + j) % 3 == 0,
            MaskPattern::Pattern4 => (i / 2 + j / 3) % 2 == 0,
            MaskPattern::Pattern5 => ((i * j) % 2 + (i * j) % 3) == 0,
            MaskPattern::Pattern6 => (((i * j) % 2) + ((i * j) % 3)) % 2 == 0,
            MaskPattern::Pattern7 => (((i + j) % 2) + ((i * j) % 3)) % 2 == 0,
        }
    }
}


/// The data-mask table of ISO/IEC 18004, read through remainders alone: the
/// masked modules of row `i`, column `j` are, pattern by pattern,
/// - 000: those whose row and column have the same parity;
/// - 001: those on even rows;
/// - 010: those on every third column from the first;
/// - 011: those whose row and column remainders modulo 3 add up to a multiple
///   of 3;
/// - 100: those in the upper half of a four-row band (`i mod 4 < 2`) exactly
///   when in the left half of a six-column band (`j mod 6 < 3`), a
///   checkerboard of two-row by three-column blocks;
/// - 101: those where `i j` is a multiple of 6;
/// - 110: those where `i j mod 6` is below 3;
/// - 111: those where row plus column is even exactly when `i j mod 3` is
///   not 1.
pub proof fn lemma_mask_table(i: int, j: int)
    requires
        i >= 0,
        j >= 0,
    ensures
        mask_condition(MaskPattern::Pattern0, i, j) == (i % 2 == j % 2),
        mask_condition(MaskPattern::Pattern1, i, j) == (i % 2 == 0),
        mask_condition(MaskPattern::Pattern2, i, j) == (j % 3 == 0),
        mask_condition(MaskPattern::Pattern3, i, j) == ((i % 3 + j % 3) % 3 == 0),
        mask_condition(MaskPattern::Pattern4, i, j) == ((i % 4 < 2) == (j % 6 < 3)),
        mask_condition(MaskPattern::Pattern5, i, j) == ((i * j) % 6 == 0),
        mask_condition(MaskPattern::Pattern6, i, j) == ((i * j) % 6 < 3),
        mask_condition(MaskPattern::Pattern7, i, j) == (((i + j) % 2 == 0) == ((i * j) % 3
            != 1)),
{
    let p = i * j;
    assert(p >= 0) by (nonlinear_arith)
        requires
            p == i * j,
            i >= 0,
            j >= 0,
    ;
    assert((p % 2 == 0 && p % 3 == 0) == (p % 6 == 0)) by (nonlinear_arith)
        requires
            p >= 0,
    ;
    assert(((p % 2 + p % 3) % 2 == 0) == (p % 6 < 3)) by (nonlinear_arith)
        requires
            p >= 0,
    ;
    assert(((i / 2) % 2 == 0) == (i % 4 < 2)) by (nonlinear_arith)
        requires
            i >= 0,
    ;
    assert(((j / 3) % 2 == 0) == (j % 6 < 3)) by (nonlinear_arith)
        requires
            j >= 0,
    ;
    assert(((i / 2 + j / 3) % 2 == 0) == (((i / 2) % 2 == 0) == ((j / 3) % 2 == 0))) by (
    nonlinear_arith)
        requires
            i >= 0,
            j >= 0,
    ;
    assert(((i + j) % 3 == 0) == ((i % 3 + j % 3) % 3 == 0)) by (nonlinear_arith)
        requires
            i >= 0,
            j >= 0,
    ;
    assert(((i + j) % 2 == 0) == (i % 2 == j % 2)) by (nonlinear_arith)
        requires
            i >= 0,
            j >= 0,
    ;
}

/// Mask pattern 100 is a checkerboard of two-row by three-column blocks
/// starting masked at the top left: a module takes the value of the top-left
/// module of its block, two rows down or three columns across the value
/// flips, and module (0, 0) is masked.
pub proof fn lemma_mask4_blocks(i: int, j: int)
    requires
        i >= 0,
        j >= 0,
    ensures
        mask_condition(MaskPattern::Pattern4, i, j) == mask_condition(
            MaskPattern::Pattern4,
            i - i % 2,
            j - j % 3,
        ),
        mask_condition(MaskPattern::Pattern4, i + 2, j) != mask_condition(MaskPattern::Pattern4, i, j),
        mask_condition(MaskPattern::Pattern4, i, j + 3) != mask_condition(MaskPattern::Pattern4, i, j),
        mask_condition(MaskPattern::Pattern4, 0, 0),
{
    assert((i - i % 2) / 2 == i / 2 && (i + 2) / 2 == i / 2 + 1) by (nonlinear_arith)
        requires
            i >= 0,
    ;
    assert((j - j % 3) / 3 == j / 3 && (j + 3) / 3 == j / 3 + 1) by (nonlinear_arith)
        requires
            j >= 0,
    ;
}

} // verus!
