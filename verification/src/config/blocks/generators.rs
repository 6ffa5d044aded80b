use vstd::prelude::*;
use crate::raster::Raster;

verus! {

/// An icon state of one frame that is appended to the cut icon as it is,
/// for map editors to show.
#[derive(Debug, PartialEq, Eq)]
pub struct MapIcon {
    pub icon_state_name: String,
    pub image: Raster,
}

} // verus!
