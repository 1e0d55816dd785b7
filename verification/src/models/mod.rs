//! What each inference pipeline computes around its model.

use vstd::prelude::*;

pub mod source_separation;
pub mod vocal2midi;
pub mod vocal_enhance;

verus! {

/// Which kind of model is in memory. One model is kept at a time.
#[derive(Clone, Copy, PartialEq, Eq, Debug, Structural)]
pub enum Loaded {
    MbrFull,
    MbrWsa,
    Srs,
    Game,
}

} // verus!
