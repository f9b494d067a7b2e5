use vstd::prelude::*;

verus! {

/// Number of states of the gene model.
pub const NUM_STATE: usize = 29;

/// Predecessor tag of a cell whose predecessor is not decided.
pub const NOSTATE: i8 = -1;

pub const S_STATE: usize = 0;
pub const E_STATE: usize = 1;
pub const R_STATE: usize = 2;
pub const S_STATE_1: usize = 3;
pub const E_STATE_1: usize = 4;
pub const M1_STATE: usize = 5;
pub const M2_STATE: usize = 6;
pub const M3_STATE: usize = 7;
pub const M4_STATE: usize = 8;
pub const M5_STATE: usize = 9;
pub const M6_STATE: usize = 10;
pub const M1_STATE_1: usize = 11;
pub const M2_STATE_1: usize = 12;
pub const M3_STATE_1: usize = 13;
pub const M4_STATE_1: usize = 14;
pub const M5_STATE_1: usize = 15;
pub const M6_STATE_1: usize = 16;
pub const I1_STATE: usize = 17;
pub const I2_STATE: usize = 18;
pub const I3_STATE: usize = 19;
pub const I4_STATE: usize = 20;
pub const I5_STATE: usize = 21;
pub const I6_STATE: usize = 22;
pub const I1_STATE_1: usize = 23;
pub const I2_STATE_1: usize = 24;
pub const I3_STATE_1: usize = 25;
pub const I4_STATE_1: usize = 26;
pub const I5_STATE_1: usize = 27;
pub const I6_STATE_1: usize = 28;

pub const TR_MM: usize = 0;
pub const TR_MI: usize = 1;
pub const TR_MD: usize = 2;
pub const TR_II: usize = 3;
pub const TR_IM: usize = 4;
pub const TR_DD: usize = 5;
pub const TR_DM: usize = 6;
pub const TR_GE: usize = 7;
pub const TR_GG: usize = 8;
pub const TR_ER: usize = 9;
pub const TR_RS: usize = 10;
pub const TR_RR: usize = 11;
pub const TR_ES: usize = 12;
pub const TR_ES1: usize = 13;

/// A forward match state `M1`..`M6`.
pub open spec fn is_forward_match(s: int) -> bool {
    M1_STATE <= s <= M6_STATE
}

/// A reverse match state `M1'`..`M6'`.
pub open spec fn is_reverse_match(s: int) -> bool {
    M1_STATE_1 <= s <= M6_STATE_1
}

/// A match state of either strand.
pub open spec fn is_match(s: int) -> bool {
    is_forward_match(s) || is_reverse_match(s)
}

/// An insertion state of either strand.
pub open spec fn is_insert(s: int) -> bool {
    I1_STATE <= s <= I6_STATE_1
}

/// A match state at the first base of a codon: `M1`, `M4`, `M1'` or `M4'`.
pub open spec fn is_codon_entry(s: int) -> bool {
    s == M1_STATE || s == M4_STATE || s == M1_STATE_1 || s == M4_STATE_1
}

} // verus!
