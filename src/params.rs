use vstd::prelude::*;

verus! {

/// Level-0 (TLWE) dimension `n`.
pub const N_LV0: usize = 635;

/// Level-1 / ring dimension `N` (a power of two).
pub const N_LV1: usize = 1024;

/// `log2(N)`.
pub const NBIT: usize = 10;

/// `log2(Bg)`, the bit width of one gadget digit.
pub const BGBIT: u32 = 6;

/// Gadget base `Bg`.
pub const BG: u32 = 64;

/// Gadget depth `l`.
pub const L: usize = 3;

/// Key-switching depth `t`.
pub const T: usize = 8;

/// Key-switching base bit.
pub const BASEBIT: u32 = 2;

/// Key-switching base `K = 2^basebit`.
pub const K: usize = 4;

/// Smallest signed gadget digit, `-Bg/2`.
pub const SIGN_MIN: i8 = -32;

/// Largest signed gadget digit, `Bg/2 - 1`.
pub const SIGN_MAX: i8 = 31;

} // verus!
