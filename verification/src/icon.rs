//! The icon container as the cutters see it: a list of named icon states,
//! each a run of animation frames with one image per direction.

use vstd::prelude::*;
use crate::raster::{Raster, RasterView};

verus! {

/// How many delay units make one tick of the engine's animation clock.
/// Delays are whole numbers of units, so a thousandth of a tick is the
/// finest delay there is.
pub const DELAY_UNITS_PER_TICK: u32 = 1000;

/// What an icon state is.
pub struct IconStateView {
    pub name: Seq<char>,
    pub dirs: nat,
    pub frames: nat,
    pub images: Seq<RasterView>,
    pub delay: Option<Seq<nat>>,
    pub rewind: bool,
}

/// A named entry of an icon: `frames` animation frames of `dirs` images
/// each, frame by frame, with the delay of each frame in delay units.
#[derive(Debug, PartialEq, Eq)]
pub struct IconState {
    pub name: String,
    pub dirs: u8,
    pub frames: u32,
    pub images: Vec<Raster>,
    pub delay: Option<Vec<u32>>,
    pub rewind: bool,
}

/// The views of a list of images.
pub open spec fn raster_views(images: Seq<Raster>) -> Seq<RasterView> {
    images.map_values(|image: Raster| image@)
}

/// A list of delays as numbers.
pub open spec fn delay_values(delays: Seq<u32>) -> Seq<nat> {
    delays.map_values(|delay: u32| delay as nat)
}

impl View for IconState {
    type V = IconStateView;

    open spec fn view(&self) -> IconStateView {
        IconStateView {
            name: self.name@,
            dirs: self.dirs as nat,
            frames: self.frames as nat,
            images: raster_views(self.images@),
            delay: match self.delay {
                Some(delays) => Some(delay_values(delays@)),
                None => None,
            },
            rewind: self.rewind,
        }
    }
}

impl IconStateView {
    /// Each frame has an image for each direction, and a delay if there
    /// are delays at all.
    pub open spec fn wf(self) -> bool {
        &&& self.images.len() == self.dirs * self.frames
        &&& self.delay matches Some(delays) ==> delays.len() == self.frames
    }

    /// Whether every image of the state has the given size.
    pub open spec fn sized(self, width: nat, height: nat) -> bool {
        forall|i: int|
            0 <= i < self.images.len() ==> (#[trigger] self.images[i]).width == width
                && self.images[i].height == height
    }

    /// The images of frame `k`, one per direction.
    pub open spec fn group(self, k: int) -> Seq<RasterView> {
        self.images.subrange(k * self.dirs, (k + 1) * self.dirs)
    }
}

impl Clone for IconState {
    fn clone(&self) -> (r: IconState)
        ensures
            r@ == self@,
    {
        let images = clone_images(&self.images);
        let delay = match &self.delay {
            Some(delays) => {
                let copied = delays.clone();
                assert(copied@ =~= delays@);
                Some(copied)
            },
            None => None,
        };
        IconState {
            name: self.name.clone(),
            dirs: self.dirs,
            frames: self.frames,
            images,
            delay,
            rewind: self.rewind,
        }
    }
}

impl IconState {
    /// Whether the state is well formed and all its images have the given
    /// size.
    pub fn is_well_formed(&self, width: u32, height: u32) -> (r: bool)
        ensures
            r == (self@.wf() && self@.sized(width as nat, height as nat)),
    {
        assert(0 <= (self.dirs as int) * (self.frames as int) <= 255 * u32::MAX)
            by (nonlinear_arith)
            requires
                0 <= self.dirs <= 255,
                0 <= self.frames <= u32::MAX,
        ;
        let wanted: u64 = (self.dirs as u64) * (self.frames as u64);
        if self.images.len() as u64 != wanted {
            return false;
        }
        match &self.delay {
            Some(delays) => {
                if delays.len() as u64 != self.frames as u64 {
                    return false;
                }
            },
            None => {},
        }
        let mut i: usize = 0;
        while i < self.images.len()
            invariant
                i <= self.images@.len(),
                forall|k: int|
                    0 <= k < i ==> (#[trigger] self@.images[k]).width == width
                        && self@.images[k].height == height,
            decreases self.images@.len() - i,
        {
            if self.images[i].width() != width || self.images[i].height() != height {
                assert(self@.images[i as int] == self.images@[i as int]@);
                return false;
            }
            assert(self@.images[i as int] == self.images@[i as int]@);
            i += 1;
        }
        true
    }
}

/// Copies a list of images.
pub fn clone_images(images: &Vec<Raster>) -> (r: Vec<Raster>)
    ensures
        raster_views(r@) == raster_views(images@),
{
    let mut r: Vec<Raster> = Vec::new();
    let mut i: usize = 0;
    while i < images.len()
        invariant
            i <= images@.len(),
            r@.len() == i,
            forall|k: int| 0 <= k < i ==> (#[trigger] r@[k])@ == images@[k]@,
        decreases images@.len() - i,
    {
        r.push(images[i].clone());
        i += 1;
    }
    assert(raster_views(r@) =~= raster_views(images@));
    r
}

/// What an icon is.
pub struct IconView {
    pub width: nat,
    pub height: nat,
    pub states: Seq<IconStateView>,
}

/// A multi-state icon: the size of every image in it, and its states.
#[derive(Debug, PartialEq, Eq)]
pub struct Icon {
    pub width: u32,
    pub height: u32,
    pub states: Vec<IconState>,
}

/// The views of a list of icon states.
pub open spec fn state_views(states: Seq<IconState>) -> Seq<IconStateView> {
    states.map_values(|state: IconState| state@)
}

impl IconView {
    /// Every state is well formed, and every image has the size of the icon.
    pub open spec fn wf(self) -> bool {
        forall|i: int|
            0 <= i < self.states.len() ==> (#[trigger] self.states[i]).wf()
                && self.states[i].sized(self.width, self.height)
    }
}

impl Icon {
    /// Whether the icon is well formed.
    pub fn is_well_formed(&self) -> (r: bool)
        ensures
            r == self@.wf(),
    {
        let mut i: usize = 0;
        while i < self.states.len()
            invariant
                i <= self.states@.len(),
                forall|k: int|
                    0 <= k < i ==> (#[trigger] self@.states[k]).wf() && self@.states[k].sized(
                        self@.width,
                        self@.height,
                    ),
            decreases self.states@.len() - i,
        {
            assert(self@.states[i as int] == self.states@[i as int]@);
            if !self.states[i].is_well_formed(self.width, self.height) {
                return false;
            }
            i += 1;
        }
        true
    }
}

impl View for Icon {
    type V = IconView;

    open spec fn view(&self) -> IconView {
        IconView {
            width: self.width as nat,
            height: self.height as nat,
            states: state_views(self.states@),
        }
    }
}

} // verus!
