use vstd::prelude::*;

pub mod delivery;
pub mod error;
pub mod report_text;
pub mod split;
pub mod text;
pub mod transport;

verus! {

} // verus!
