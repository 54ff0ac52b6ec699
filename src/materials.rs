//! Material slots that the shards write per vertex.
use vstd::prelude::*;

verus! {

pub const TY_HULL_PROFILES: i32 = 74;
pub const TY_HULL_PLATES: i32 = 84;
pub const TY_HULL_OUTERPLATES: i32 = 86;
pub const TY_HULL_OTHERS: i32 = 15;
pub const SELECTION_HULL_MAT: i32 = 1;
pub const HIDDEN_HULL_MAT: i32 = 0;

/// The default material slot of a hull part type.
pub open spec fn spec_type_to_color(ty: int) -> i32 {
    if ty == 0 || ty == 2 || ty == 7 || ty == 16 || ty == 19 || ty == 21 || ty == 24 || ty == 17 {
        TY_HULL_PROFILES
    } else if ty == 8 || ty == 12 || ty == 15 || ty == 18 || ty == 20 || ty == 22 || ty == 23 {
        TY_HULL_PLATES
    } else if ty == 9 {
        TY_HULL_OUTERPLATES
    } else {
        TY_HULL_OTHERS
    }
}

/// The default material slot of a hull part type: profiles, plates and
/// outer plates each have their own, every other type shares one.
pub fn type_to_color(ty: i32) -> (r: i32)
    ensures
        r == spec_type_to_color(ty as int),
{
    match ty {
        0 | 2 | 7 | 16 | 19 | 21 | 24 | 17 => TY_HULL_PROFILES,
        8 | 12 | 15 | 18 | 20 | 22 | 23 => TY_HULL_PLATES,
        9 => TY_HULL_OUTERPLATES,
        _ => TY_HULL_OTHERS,
    }
}

} // verus!
