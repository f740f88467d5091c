//! Real-valued quantities.
//!
//! The library never computes with real numbers: every real quantity it holds
//! (positions, masses, times, tolerances, ...) is carried as the IEEE-754
//! binary64 bit pattern of the value, the `u64` that `f64::to_bits` gives.
//! Code outside the library converts in both directions; the library stores,
//! copies, selects and orders such values exactly, bit for bit.

use vstd::prelude::*;

verus! {

/// Bit pattern of `0.0`.
pub const REAL_ZERO: u64 = 0x0000_0000_0000_0000u64;

/// Bit pattern of `1.0`.
pub const REAL_ONE: u64 = 0x3FF0_0000_0000_0000u64;

/// Bit pattern of `-1.0`.
pub const REAL_MINUS_ONE: u64 = 0xBFF0_0000_0000_0000u64;

/// Bit pattern of `0.01`.
pub const REAL_0_01: u64 = 0x3F84_7AE1_47AE_147Bu64;

/// Bit pattern of `0.05`.
pub const REAL_0_05: u64 = 0x3FA9_9999_9999_999Au64;

/// Bit pattern of `0.2`.
pub const REAL_0_2: u64 = 0x3FC9_9999_9999_999Au64;

/// Bit pattern of `0.3`.
pub const REAL_0_3: u64 = 0x3FD3_3333_3333_3333u64;

/// Bit pattern of `0.5`.
pub const REAL_0_5: u64 = 0x3FE0_0000_0000_0000u64;

/// Bit pattern of `-9.81`.
pub const REAL_MINUS_9_81: u64 = 0xC023_9EB8_51EB_851Fu64;

/// Bit pattern of positive infinity.
pub const REAL_INFINITY: u64 = 0x7FF0_0000_0000_0000u64;

/// Bit pattern of negative infinity.
pub const REAL_NEG_INFINITY: u64 = 0xFFF0_0000_0000_0000u64;


/// Bit pattern of `0.025`.
pub const REAL_0_025: u64 = 0x3F99_9999_9999_999Au64;

/// Bit pattern of `0.063`.
pub const REAL_0_063: u64 = 0x3FB0_20C4_9BA5_E354u64;

/// Bit pattern of `0.1`.
pub const REAL_0_1: u64 = 0x3FB9_9999_9999_999Au64;

/// Bit pattern of `0.4`.
pub const REAL_0_4: u64 = 0x3FD9_9999_9999_999Au64;

/// Bit pattern of `0.8`.
pub const REAL_0_8: u64 = 0x3FE9_9999_9999_999Au64;

/// Bit pattern of `0.99`.
pub const REAL_0_99: u64 = 0x3FEF_AE14_7AE1_47AEu64;

/// Bit pattern of `2.0`.
pub const REAL_TWO: u64 = 0x4000_0000_0000_0000u64;

/// Bit pattern of `2.2`.
pub const REAL_2_2: u64 = 0x4001_9999_9999_999Au64;

/// Bit pattern of `8.0`.
pub const REAL_EIGHT: u64 = 0x4020_0000_0000_0000u64;

/// Bit pattern of `π`.
pub const REAL_PI: u64 = 0x4009_21FB_5444_2D18u64;


/// Bit pattern of `1000.0`.
pub const REAL_THOUSAND: u64 = 0x408F_4000_0000_0000u64;

} // verus!
