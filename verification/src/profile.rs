//! The choices between the historic and the contemporary reading of the
//! instructions on which the two differ.

use vstd::prelude::*;

verus! {

/// Four independent toggles. Every combination is a legal configuration.
#[derive(Clone, Copy, Debug, PartialEq, Eq, Structural)]
pub struct Profile {
    /// The right shift first copies Vy into Vx.
    pub shr_copies_vy: bool,
    /// The left shift first copies Vy into Vx.
    pub shl_copies_vy: bool,
    /// The register dump leaves I behind the last byte written.
    pub store_dump_advances_i: bool,
    /// The register load leaves I behind the last byte read.
    pub store_load_advances_i: bool,
}

impl Profile {
    /// The historic behaviour: every toggle on.
    pub fn original() -> (p: Profile)
        ensures
            p.shr_copies_vy,
            p.shl_copies_vy,
            p.store_dump_advances_i,
            p.store_load_advances_i,
    {
        Profile {
            shr_copies_vy: true,
            shl_copies_vy: true,
            store_dump_advances_i: true,
            store_load_advances_i: true,
        }
    }

    /// The contemporary behaviour: every toggle off.
    pub fn modern() -> (p: Profile)
        ensures
            !p.shr_copies_vy,
            !p.shl_copies_vy,
            !p.store_dump_advances_i,
            !p.store_load_advances_i,
    {
        Profile {
            shr_copies_vy: false,
            shl_copies_vy: false,
            store_dump_advances_i: false,
            store_load_advances_i: false,
        }
    }
}

} // verus!
