use vstd::prelude::*;
use vstd::string::*;
use crate::config::blocks::cutters::SlicePoint;
use crate::icon::{delay_values, raster_views, state_views, Icon, IconState, IconStateView, IconView};
use crate::operations::cutters::bitmask_slice::{find_adjacency, BitmaskSlice, SideSpacing};
use crate::operations::error::ProcessorError;
use crate::operations::{InputIcon, OperationMode, ProcessorPayload};
use crate::raster::{Raster, RasterView};
use crate::util::adjacency::{Adjacency, CARDINALS};
use crate::util::corners::{Corner, CornerSet, Side};
use crate::util::directions::DirectionStrategy;
use crate::util::icon_ops::{dedupe_frames, spec_dedupe_frames};
use crate::util::repeat_for;
use crate::util::text::{decimal, decimal_string};

verus! {

/// The configuration of the cutter for directional visibility: that of the
/// bitmask cutter, and for each side of a tile the point at which the
/// slice of that side is cut off.
#[derive(Debug, PartialEq, Eq)]
pub struct BitmaskDirectionalVis {
    pub bitmask_slice_config: BitmaskSlice,
    pub slice_point: SlicePoint,
    pub mask_color: Option<String>,
}

impl BitmaskDirectionalVis {
    /// The span of a tile that the slice of a side covers: north and west
    /// reach from the border to the slice point of the side, south and
    /// east from the slice point to the far border.
    pub open spec fn spec_get_side_cuts(&self, side: Side) -> SideSpacing {
        match side {
            Side::North => SideSpacing { start: 0, end: self.slice_point.north.unwrap() },
            Side::South => SideSpacing {
                start: self.slice_point.south.unwrap(),
                end: self.bitmask_slice_config.icon_size.y,
            },
            Side::East => SideSpacing {
                start: self.slice_point.east.unwrap(),
                end: self.bitmask_slice_config.icon_size.x,
            },
            Side::West => SideSpacing { start: 0, end: self.slice_point.west.unwrap() },
        }
    }

    /// The span of the slice of a side. The side has a slice point.
    pub fn get_side_cuts(&self, side: Side) -> (r: SideSpacing)
        requires
            self.slice_point.spec_get(side) is Some,
        ensures
            r == self.spec_get_side_cuts(side),
    {
        match side {
            Side::North => SideSpacing { start: 0, end: self.slice_point.get(Side::North).unwrap() },
            Side::South => SideSpacing {
                start: self.slice_point.get(Side::South).unwrap(),
                end: self.bitmask_slice_config.icon_size.y,
            },
            Side::East => SideSpacing {
                start: self.slice_point.get(Side::East).unwrap(),
                end: self.bitmask_slice_config.icon_size.x,
            },
            Side::West => SideSpacing { start: 0, end: self.slice_point.get(Side::West).unwrap() },
        }
    }

    /// Every side has a slice point, and the slice points of south and
    /// east lie inside the tile.
    pub open spec fn spec_points_fit(&self) -> bool {
        &&& self.slice_point.north is Some
        &&& self.slice_point.west is Some
        &&& self.slice_point.south matches Some(south) && south
            <= self.bitmask_slice_config.icon_size.y
        &&& self.slice_point.east matches Some(east) && east
            <= self.bitmask_slice_config.icon_size.x
    }

    /// The rectangle (left, top, width, height) of the slice of a side: the
    /// whole width and the span of a vertical side, the span and the whole
    /// height of a horizontal side.
    pub open spec fn spec_side_rect(&self, side: Side) -> (u32, u32, u32, u32) {
        let span = self.spec_get_side_cuts(side);
        if side.spec_is_vertical() {
            (0, span.start, self.bitmask_slice_config.icon_size.x, (span.end - span.start) as u32)
        } else {
            (span.start, 0, (span.end - span.start) as u32, self.bitmask_slice_config.icon_size.y)
        }
    }

    /// The rectangle (left, top, width, height) of the inner corner at a
    /// corner: across, the span of the corner's horizontal side in the
    /// bitmask cutter; down, from the top to the slice point of north, or
    /// from the slice point of south to the bottom.
    pub open spec fn spec_corner_rect(&self, corner: Corner) -> (u32, u32, u32, u32) {
        let sides = corner.spec_sides_of_corner();
        let across = self.bitmask_slice_config.spec_get_side_info(sides.0);
        if sides.1 == Side::North {
            (
                across.start,
                0,
                (across.end - across.start) as u32,
                self.slice_point.north.unwrap(),
            )
        } else {
            (
                across.start,
                self.slice_point.south.unwrap(),
                (across.end - across.start) as u32,
                (self.bitmask_slice_config.icon_size.y - self.slice_point.south.unwrap()) as u32,
            )
        }
    }

    /// A rectangle of an output tile alone on a transparent tile of the
    /// input size, at its place.
    pub open spec fn spec_cut(&self, image: RasterView, rect: (u32, u32, u32, u32)) -> RasterView {
        RasterView::blank(
            self.bitmask_slice_config.icon_size.x as nat,
            self.bitmask_slice_config.icon_size.y as nat,
        ).overlaid(
            image.cropped(rect.0 as nat, rect.1 as nat, rect.2 as nat, rect.3 as nat),
            rect.0 as nat,
            rect.1 as nat,
        )
    }

    /// The images of a state for the first `count` output directions:
    /// direction by direction, and within a direction frame by frame, the
    /// rectangle of the output tile of the adjacency. Where directions are
    /// rotations every direction shows the tiles of the only input
    /// direction.
    pub open spec fn spec_direction_cuts(
        &self,
        atlas: RasterView,
        adjacency: Adjacency,
        rect: (u32, u32, u32, u32),
        count: nat,
    ) -> Seq<RasterView>
        decreases count,
    {
        if count == 0 {
            Seq::empty()
        } else {
            self.spec_direction_cuts(atlas, adjacency, rect, (count - 1) as nat) + Seq::new(
                self.bitmask_slice_config.spec_num_frames(atlas) as nat,
                |f: int|
                    self.spec_cut(
                        self.bitmask_slice_config.spec_composed(
                            atlas,
                            self.bitmask_slice_config.spec_source_direction(count - 1),
                            adjacency,
                            f,
                        ),
                        rect,
                    ),
            )
        }
    }

    /// The icon state with a given name that shows a rectangle of the
    /// output tiles of an adjacency.
    pub open spec fn spec_vis_state(
        &self,
        atlas: RasterView,
        name: Seq<char>,
        adjacency: Adjacency,
        rect: (u32, u32, u32, u32),
    ) -> IconStateView {
        let slice = self.bitmask_slice_config;
        spec_dedupe_frames(
            IconStateView {
                name,
                dirs: slice.spec_output_count(),
                frames: slice.spec_num_frames(atlas) as nat,
                images: self.spec_direction_cuts(atlas, adjacency, rect, slice.spec_output_count()),
                delay: slice.spec_delay(slice.spec_num_frames(atlas)),
                rewind: slice.spec_rewind(),
            },
        )
    }

    /// The name of the state of a side of an adjacency: the text form of
    /// the adjacency, a hyphen and the engine's bit of the side.
    pub open spec fn spec_side_name(adjacency: Adjacency, side: Side) -> Seq<char> {
        adjacency.spec_pretty_print() + seq!['-'] + decimal(side.spec_byond_dir() as nat)
    }

    /// The name of the state of the inner corner at a corner.
    pub open spec fn spec_corner_name(corner: Corner) -> Seq<char> {
        "innercorner-"@ + decimal(corner.spec_byond_dir() as nat)
    }

    /// The states of the sides of an adjacency, in the engine's order of
    /// the sides.
    pub open spec fn spec_side_states(&self, atlas: RasterView, adjacency: Adjacency) -> Seq<
        IconStateView,
    > {
        Seq::new(
            4,
            |s: int|
                self.spec_vis_state(
                    atlas,
                    BitmaskDirectionalVis::spec_side_name(adjacency, Side::spec_dmi_cardinals()[s]),
                    adjacency,
                    self.spec_side_rect(Side::spec_dmi_cardinals()[s]),
                ),
        )
    }

    /// The states of the sides of the first `count` adjacencies that get
    /// composed: four for each that has no orphaned corner.
    pub open spec fn spec_side_states_upto(&self, atlas: RasterView, count: nat) -> Seq<
        IconStateView,
    >
        decreases count,
    {
        if count == 0 {
            Seq::empty()
        } else {
            let before = self.spec_side_states_upto(atlas, (count - 1) as nat);
            let adjacency =
                self.bitmask_slice_config.output_type.spec_output_adjacencies()[count - 1];
            if adjacency.spec_has_no_orphaned_corner() {
                before + self.spec_side_states(atlas, adjacency)
            } else {
                before
            }
        }
    }

    /// The states of the inner corners: for each corner, its rectangle of
    /// the output tiles of the adjacency with all cardinal neighbours.
    pub open spec fn spec_corner_states(&self, atlas: RasterView) -> Seq<IconStateView> {
        Seq::new(
            4,
            |c: int|
                self.spec_vis_state(
                    atlas,
                    BitmaskDirectionalVis::spec_corner_name(Corner::spec_all()[c]),
                    Adjacency::of_bits(CARDINALS),
                    self.spec_corner_rect(Corner::spec_all()[c]),
                ),
        )
    }

    /// The icon that is cut: tiles of the output size; the states of the
    /// sides of each adjacency that gets composed and has no orphaned
    /// corner; the states of the four inner corners; and the map icon.
    pub open spec fn spec_vis_icon(&self, atlas: RasterView) -> IconView {
        let slice = self.bitmask_slice_config;
        IconView {
            width: slice.output_icon_size.x as nat,
            height: slice.output_icon_size.y as nat,
            states: self.spec_side_states_upto(
                atlas,
                slice.output_type.spec_output_adjacencies().len(),
            ) + self.spec_corner_states(atlas) + slice.spec_map_icon_states(),
        }
    }

    /// What cutting asks for: what the bitmask cutter asks for, slice
    /// points that fit, and a tile of the input size that is no larger than
    /// the largest allocation.
    pub open spec fn spec_valid_for(&self, atlas: RasterView) -> bool {
        &&& self.bitmask_slice_config.spec_valid_for(atlas)
        &&& self.spec_points_fit()
        &&& 4 * self.bitmask_slice_config.icon_size.x * self.bitmask_slice_config.icon_size.y
            <= isize::MAX
    }

    /// Whether an atlas can be cut by this configuration.
    pub fn is_valid_for(&self, img: &Raster) -> (r: bool)
        ensures
            r == self.spec_valid_for(img@),
    {
        if !self.bitmask_slice_config.is_valid_for(img) {
            return false;
        }
        if self.slice_point.north.is_none() || self.slice_point.west.is_none() {
            return false;
        }
        match self.slice_point.south {
            Some(south) => {
                if south > self.bitmask_slice_config.icon_size.y {
                    return false;
                }
            },
            None => {
                return false;
            },
        }
        match self.slice_point.east {
            Some(east) => {
                if east > self.bitmask_slice_config.icon_size.x {
                    return false;
                }
            },
            None => {
                return false;
            },
        }
        crate::raster::channel_count(
            self.bitmask_slice_config.icon_size.x,
            self.bitmask_slice_config.icon_size.y,
        ) <= isize::MAX as u128
    }

    /// Whether `perform_operation` takes this input in this mode.
    pub fn can_perform(&self, input: &InputIcon, mode: OperationMode) -> (r: bool)
        ensures
            r == (input matches InputIcon::DynamicImage(img) ==> {
                &&& self.bitmask_slice_config.spec_expected_width() <= u32::MAX
                &&& img@.width == self.bitmask_slice_config.spec_expected_width() ==> {
                    &&& self.spec_valid_for(img@)
                    &&& mode == OperationMode::Debug
                        ==> self.bitmask_slice_config.spec_debug_fits(img@)
                }
            }),
    {
        let img = match input {
            InputIcon::DynamicImage(img) => img,
            _ => {
                return true;
            },
        };
        let expected = match self.bitmask_slice_config.expected_width() {
            Some(expected) => expected,
            None => {
                return false;
            },
        };
        if img.width() != expected {
            return true;
        }
        if !self.is_valid_for(img) {
            return false;
        }
        match mode {
            OperationMode::Debug => self.bitmask_slice_config.debug_fits(img),
            OperationMode::Standard => true,
        }
    }

    /// The state that shows a rectangle of the output tiles of the
    /// adjacency in place `a` of the list of those that get composed.
    #[verifier::rlimit(40)]
    fn cut_state(
        &self,
        img: &Raster,
        assembled: &Vec<Vec<Vec<Raster>>>,
        a: usize,
        rect: (u32, u32, u32, u32),
        name: String,
    ) -> (r: IconState)
        requires
            self.spec_valid_for(img@),
            self.bitmask_slice_config.spec_is_assembled(*assembled, img@),
            a < self.bitmask_slice_config.output_type.spec_output_adjacencies().len(),
        ensures
            r@ == self.spec_vis_state(
                img@,
                name@,
                self.bitmask_slice_config.output_type.spec_output_adjacencies()[a as int],
                rect,
            ),
    {
        proof {
            use_type_invariant(img);
        }
        let slice = &self.bitmask_slice_config;
        let ghost atlas = img@;
        let ghost adjacency = slice.output_type.spec_output_adjacencies()[a as int];
        let num_frames: u32 = img.height() / slice.icon_size.y;
        let output_directions = slice.direction_strategy.output_vec();
        let dir_count: u8 = output_directions.len() as u8;
        let rotated: bool = match slice.direction_strategy {
            DirectionStrategy::CardinalsRotated => true,
            _ => false,
        };
        let mut icon_state_frames: Vec<Raster> = Vec::new();
        let mut di: usize = 0;
        while di < dir_count as usize
            invariant
                di <= dir_count,
                dir_count == slice.spec_output_count(),
                *slice == self.bitmask_slice_config,
                rotated == (slice.direction_strategy == DirectionStrategy::CardinalsRotated),
                self.spec_valid_for(atlas),
                atlas == img@,
                slice.spec_is_assembled(*assembled, atlas),
                num_frames == slice.spec_num_frames(atlas),
                a < slice.output_type.spec_output_adjacencies().len(),
                adjacency == slice.output_type.spec_output_adjacencies()[a as int],
                raster_views(icon_state_frames@) == self.spec_direction_cuts(
                    atlas,
                    adjacency,
                    rect,
                    di as nat,
                ),
            decreases dir_count - di,
        {
            let source: usize = if rotated {
                0
            } else {
                di
            };
            assert(slice.spec_is_direction_of(assembled@[source as int], atlas, source as int));
            assert(slice.spec_is_tile_of(
                assembled@[source as int]@[a as int],
                atlas,
                source as int,
                adjacency,
            ));
            let images = &assembled[source][a];
            let ghost before = raster_views(icon_state_frames@);
            let mut f: usize = 0;
            while f < images.len()
                invariant
                    f <= images@.len(),
                    images@.len() == num_frames,
                    *slice == self.bitmask_slice_config,
                    self.spec_valid_for(atlas),
                    slice.spec_is_tile_of(*images, atlas, source as int, adjacency),
                    raster_views(icon_state_frames@) == before + Seq::new(
                        f as nat,
                        |k: int|
                            self.spec_cut(
                                slice.spec_composed(atlas, source as int, adjacency, k),
                                rect,
                            ),
                    ),
                decreases images@.len() - f,
            {
                let ghost so_far = raster_views(icon_state_frames@);
                let mut cut_img = Raster::blank(slice.icon_size.x, slice.icon_size.y);
                let crop = images[f].crop_imm(rect.0, rect.1, rect.2, rect.3);
                cut_img.overlay(&crop, rect.0, rect.1);
                icon_state_frames.push(cut_img);
                assert(raster_views(icon_state_frames@) =~= so_far.push(
                    self.spec_cut(
                        slice.spec_composed(atlas, source as int, adjacency, f as int),
                        rect,
                    ),
                ));
                assert(raster_views(icon_state_frames@) =~= before + Seq::new(
                    (f + 1) as nat,
                    |k: int|
                        self.spec_cut(
                            slice.spec_composed(atlas, source as int, adjacency, k),
                            rect,
                        ),
                ));
                f += 1;
            }
            di += 1;
        }
        let delay: Option<Vec<u32>> = match &slice.animation {
            Some(animation) => Some(repeat_for(&animation.delays, num_frames as usize)),
            None => None,
        };
        let rewind: bool = match &slice.animation {
            Some(animation) => match animation.rewind {
                Some(rewind) => rewind,
                None => false,
            },
            None => false,
        };
        dedupe_frames(
            IconState {
                name,
                dirs: dir_count,
                frames: num_frames,
                images: icon_state_frames,
                delay,
                rewind,
            },
        )
    }

    /// Cuts the output tiles of an atlas into the states of the sides and
    /// of the inner corners.
    #[verifier::rlimit(40)]
    pub fn assemble_icon(&self, img: &Raster, assembled: &Vec<Vec<Vec<Raster>>>) -> (r: Icon)
        requires
            self.spec_valid_for(img@),
            self.bitmask_slice_config.spec_is_assembled(*assembled, img@),
        ensures
            r@ == self.spec_vis_icon(img@),
    {
        let slice = &self.bitmask_slice_config;
        let ghost atlas = img@;
        let possible_adjacencies = slice.output_type.output_adjacencies();
        let sides = Side::dmi_cardinals();
        let mut icon_states: Vec<IconState> = Vec::new();
        let mut a: usize = 0;
        while a < possible_adjacencies.len()
            invariant
                a <= possible_adjacencies@.len(),
                *slice == self.bitmask_slice_config,
                atlas == img@,
                self.spec_valid_for(atlas),
                slice.spec_is_assembled(*assembled, atlas),
                possible_adjacencies@ == slice.output_type.spec_output_adjacencies(),
                sides@ == Side::spec_dmi_cardinals(),
                state_views(icon_states@) == self.spec_side_states_upto(atlas, a as nat),
            decreases possible_adjacencies@.len() - a,
        {
            let adjacency = possible_adjacencies[a];
            let ghost before = state_views(icon_states@);
            if adjacency.has_no_orphaned_corner() {
                let mut s: usize = 0;
                while s < 4
                    invariant
                        s <= 4,
                        a < possible_adjacencies@.len(),
                        adjacency == possible_adjacencies@[a as int],
                        *slice == self.bitmask_slice_config,
                        atlas == img@,
                        self.spec_valid_for(atlas),
                        slice.spec_is_assembled(*assembled, atlas),
                        possible_adjacencies@ == slice.output_type.spec_output_adjacencies(),
                        sides@ == Side::spec_dmi_cardinals(),
                        state_views(icon_states@) == before + self.spec_side_states(
                            atlas,
                            adjacency,
                        ).take(s as int),
                    decreases 4 - s,
                {
                    let ghost so_far = state_views(icon_states@);
                    let side = sides[s];
                    let slice_info = self.get_side_cuts(side);
                    let rect: (u32, u32, u32, u32) = if side.is_vertical() {
                        (0, slice_info.start, slice.icon_size.x, slice_info.step())
                    } else {
                        (slice_info.start, 0, slice_info.step(), slice.icon_size.y)
                    };
                    proof {
                        reveal_strlit("-");
                    }
                    let mut name = adjacency.pretty_print();
                    name.append("-");
                    name.append(decimal_string(side.byond_dir() as u128).as_str());
                    assert(name@ =~= BitmaskDirectionalVis::spec_side_name(adjacency, side));
                    let state = self.cut_state(img, assembled, a, rect, name);
                    icon_states.push(state);
                    assert(state_views(icon_states@) =~= so_far.push(
                        self.spec_side_states(atlas, adjacency)[s as int],
                    ));
                    assert(state_views(icon_states@) =~= before + self.spec_side_states(
                        atlas,
                        adjacency,
                    ).take(s + 1));
                    s += 1;
                }
                assert(self.spec_side_states(atlas, adjacency).take(4) =~= self.spec_side_states(
                    atlas,
                    adjacency,
                ));
            } else {
                assert(state_views(icon_states@) =~= before);
            }
            a += 1;
        }
        let cardinals = Adjacency::cardinals();
        proof {
            broadcast use Adjacency::lemma_of_bits, Adjacency::lemma_of_view;

            slice.output_type.lemma_emitted_is_listed(cardinals);
            assert(cardinals == Adjacency::of_bits(CARDINALS));
        }
        let at: usize = find_adjacency(&possible_adjacencies, cardinals);
        let all_corners = Corner::all();
        let ghost side_part = state_views(icon_states@);
        let mut c: usize = 0;
        while c < 4
            invariant
                c <= 4,
                at < possible_adjacencies@.len(),
                possible_adjacencies@[at as int] == Adjacency::of_bits(CARDINALS),
                *slice == self.bitmask_slice_config,
                atlas == img@,
                self.spec_valid_for(atlas),
                slice.spec_is_assembled(*assembled, atlas),
                possible_adjacencies@ == slice.output_type.spec_output_adjacencies(),
                all_corners@ == Corner::spec_all(),
                state_views(icon_states@) == side_part + self.spec_corner_states(atlas).take(
                    c as int,
                ),
            decreases 4 - c,
        {
            let ghost so_far = state_views(icon_states@);
            let corner = all_corners[c];
            let (horizontal, vertical) = corner.sides_of_corner();
            let horizontal_side_info = slice.get_side_info(horizontal);
            let x: u32 = horizontal_side_info.start;
            let width: u32 = horizontal_side_info.step();
            let (y, height): (u32, u32) = if vertical == Side::North {
                (0, self.slice_point.get(vertical).unwrap())
            } else {
                let slice_point: u32 = self.slice_point.get(vertical).unwrap();
                let end: u32 = slice.icon_size.y;
                (slice_point, end - slice_point)
            };
            let mut name = String::from_str("innercorner-");
            name.append(decimal_string(corner.byond_dir() as u128).as_str());
            let state = self.cut_state(img, assembled, at, (x, y, width, height), name);
            icon_states.push(state);
            assert(state_views(icon_states@) =~= so_far.push(
                self.spec_corner_states(atlas)[c as int],
            ));
            assert(state_views(icon_states@) =~= side_part + self.spec_corner_states(atlas).take(
                c + 1,
            ));
            c += 1;
        }
        assert(self.spec_corner_states(atlas).take(4) =~= self.spec_corner_states(atlas));
        let ghost cut = state_views(icon_states@);
        if let Some(map_icon) = &slice.map_icon {
            let mut images: Vec<Raster> = Vec::new();
            images.push(map_icon.image.clone());
            let state = IconState {
                name: map_icon.icon_state_name.clone(),
                dirs: 1,
                frames: 1,
                images,
                delay: None,
                rewind: false,
            };
            assert(raster_views(state.images@) =~= seq![map_icon.image@]);
            icon_states.push(state);
        }
        assert(state_views(icon_states@) =~= cut + slice.spec_map_icon_states());
        Icon {
            width: slice.output_icon_size.x,
            height: slice.output_icon_size.y,
            states: icon_states,
        }
    }

    /// Cuts an atlas into an icon with a state for each side of each
    /// adjacency and for each inner corner. An input that is no raster
    /// image is refused, and so is an atlas of another width than the
    /// configuration asks for.
    pub fn perform_operation(&self, input: &InputIcon, mode: OperationMode) -> (r: Result<
        ProcessorPayload,
        ProcessorError,
    >)
        requires
            input matches InputIcon::DynamicImage(img) ==> {
                &&& self.bitmask_slice_config.spec_expected_width() <= u32::MAX
                &&& img@.width == self.bitmask_slice_config.spec_expected_width() ==> {
                    &&& self.spec_valid_for(img@)
                    &&& mode == OperationMode::Debug
                        ==> self.bitmask_slice_config.spec_debug_fits(img@)
                }
            },
        ensures
            match input {
                InputIcon::Dmi(_) => r == Err::<ProcessorPayload, ProcessorError>(
                    ProcessorError::ImageNotFound,
                ),
                InputIcon::DynamicImage(img) => match self.bitmask_slice_config.spec_check_width(
                    img@.width as u32,
                ) {
                    Err(error) => r == Err::<ProcessorPayload, ProcessorError>(error),
                    Ok(_) => r matches Ok(payload)
                        && self.bitmask_slice_config.spec_is_payload_of(
                        payload,
                        img@,
                        mode,
                        self.spec_vis_icon(img@),
                    ),
                },
            },
    {
        let img = match input {
            InputIcon::DynamicImage(img) => img,
            _ => {
                return Err(ProcessorError::ImageNotFound);
            },
        };
        let slice = &self.bitmask_slice_config;
        match slice.check_width(img.width()) {
            Err(error) => {
                return Err(error);
            },
            Ok(_) => {},
        }
        let (corners, prefabs) = slice.generate_corners(img).unwrap();
        let assembled_map = slice.assemble_tiles(img, &corners, &prefabs);
        let out_icon = self.assemble_icon(img, &assembled_map);
        proof {
            slice.lemma_library_shapes(corners, prefabs, img@);
        }
        Ok(slice.wrap_output(img, &corners, out_icon, mode))
    }

    /// Checks the configuration. There is nothing that it checks yet.
    pub fn verify_config(&self) -> (r: Result<(), ProcessorError>)
        ensures
            r is Ok,
    {
        Ok(())
    }
}

} // verus!
