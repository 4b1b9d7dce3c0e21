use vstd::prelude::*;

pub mod rng;
pub mod vector;
pub mod selection;
pub mod stage_spec;
pub mod emerald_manager;
pub mod hint_lookup;
pub mod piece_constraint;

verus! {

/// A target platform: selects the random number generator's constants.
pub trait Platform {
    type Consts: rng::RngConsts;
}

/// The console build.
pub struct Gc;

impl Platform for Gc {
    type Consts = rng::GcRng;
}

/// The desktop build.
pub struct Pc;

impl Platform for Pc {
    type Consts = rng::PcRng;
}

} // verus!
