use vstd::prelude::*;
use vstd::string::*;
use crate::config::blocks::cutters::{
    entry_index,
    lemma_entry_index,
    Animation,
    CutPosition,
    IconSize,
    OutputIconPosition,
    OutputIconSize,
    Positions,
    Prefabs,
};
use crate::config::blocks::generators::MapIcon;
use crate::icon::{delay_values, raster_views, state_views, Icon, IconState, IconStateView, IconView};
use crate::operations::error::ProcessorError;
use crate::operations::{InputIcon, NamedIcon, OperationMode, OutputImage, ProcessorPayload};
use crate::util::icon_ops::{
    can_dedupe,
    dedupe_frames,
    delays_total,
    lemma_total_take,
    spec_dedupe_frames,
};
use crate::util::text::{decimal, decimal_string};
use crate::util::{repeat_for, spec_repeat_for};
use crate::raster::{Raster, RasterView};
use crate::util::adjacency::Adjacency;
use crate::util::corners::{Corner, CornerSet, CornerType, Side};
use crate::util::directions::{Direction, DirectionStrategy};

verus! {

/// The corners cut out of an atlas: for each input direction, for each kind
/// of corner in use, for each corner of the tile of that kind, the image of
/// each frame.
pub type CornerPayload = Vec<Vec<Vec<Vec<Raster>>>>;

/// The prefab tiles cut out of an atlas: for each input direction, for each
/// prefab in the order of the configuration, the image of each frame.
pub type PrefabPayload = Vec<Vec<Vec<Raster>>>;

/// A span along one axis of a tile, from `start` up to `end`.
#[derive(Clone, Copy, PartialEq, Eq, Structural, Debug)]
pub struct SideSpacing {
    pub start: u32,
    pub end: u32,
}

impl SideSpacing {
    /// The length of the span.
    pub fn step(self) -> (r: u32)
        requires
            self.start <= self.end,
        ensures
            r == self.end - self.start,
    {
        self.end - self.start
    }
}

/// The configuration of the bitmask cutter.
#[derive(Debug, PartialEq, Eq)]
pub struct BitmaskSlice {
    pub output_name: Option<String>,
    pub output_type: CornerSet,
    pub direction_strategy: DirectionStrategy,
    pub icon_size: IconSize,
    pub output_icon_pos: OutputIconPosition,
    pub output_icon_size: OutputIconSize,
    pub positions: Positions,
    pub cut_pos: CutPosition,
    pub animation: Option<Animation>,
    pub prefabs: Option<Prefabs>,
    pub map_icon: Option<MapIcon>,
}

impl BitmaskSlice {
    /// The number of directions that the atlas holds tiles for.
    pub open spec fn spec_direction_count(&self) -> nat {
        self.direction_strategy.spec_input_vec().len()
    }

    /// The number of prefab tiles per direction.
    pub open spec fn spec_prefab_count(&self) -> nat {
        match self.prefabs {
            Some(prefabs) => prefabs@.len(),
            None => 0,
        }
    }

    /// The number of tiles per direction: one for each kind of corner that
    /// has a column, and one for each prefab.
    pub open spec fn spec_tiles_per_direction(&self) -> nat {
        self.positions.spec_count() + self.spec_prefab_count()
    }

    /// The width that the atlas must have: a tile for each direction and
    /// each column.
    pub open spec fn spec_expected_width(&self) -> int {
        self.spec_direction_count() * self.spec_tiles_per_direction() * self.icon_size.x
    }

    /// The span of a tile that a side covers: north and west reach from the
    /// border to the cut, south and east from the cut to the far border.
    pub open spec fn spec_get_side_info(&self, side: Side) -> SideSpacing {
        match side {
            Side::North => SideSpacing { start: 0, end: self.cut_pos.y },
            Side::South => SideSpacing { start: self.cut_pos.y, end: self.icon_size.y },
            Side::East => SideSpacing { start: self.cut_pos.x, end: self.icon_size.x },
            Side::West => SideSpacing { start: 0, end: self.cut_pos.x },
        }
    }

    pub fn get_side_info(&self, side: Side) -> (r: SideSpacing)
        ensures
            r == self.spec_get_side_info(side),
    {
        match side {
            Side::North => SideSpacing { start: 0, end: self.cut_pos.y },
            Side::South => SideSpacing { start: self.cut_pos.y, end: self.icon_size.y },
            Side::East => SideSpacing { start: self.cut_pos.x, end: self.icon_size.x },
            Side::West => SideSpacing { start: 0, end: self.cut_pos.x },
        }
    }

    /// The place of a tile among all the tiles of a row of the atlas: the
    /// tiles of a direction stand together, direction after direction.
    pub open spec fn tile_index(dir_index: int, tiles_per_direction: int, column: int) -> int {
        dir_index * tiles_per_direction + column
    }

    /// The rectangle (left, top, width, height) of a corner of the tile in
    /// place `index` of the row of frame `frame`.
    pub open spec fn spec_corner_rect(&self, index: int, frame: int, corner: Corner) -> (
        int,
        int,
        int,
        int,
    ) {
        let sides = corner.spec_sides_of_corner();
        let across = self.spec_get_side_info(sides.0);
        let down = self.spec_get_side_info(sides.1);
        (
            index * self.icon_size.x + across.start,
            frame * self.icon_size.y + down.start,
            across.end - across.start,
            down.end - down.start,
        )
    }

    /// The corner of the tile in place `index` of the row of frame `frame`,
    /// cut out of the atlas.
    pub open spec fn spec_corner_image(
        &self,
        atlas: RasterView,
        index: int,
        frame: int,
        corner: Corner,
    ) -> RasterView {
        let rect = self.spec_corner_rect(index, frame, corner);
        atlas.cropped(rect.0 as nat, rect.1 as nat, rect.2 as nat, rect.3 as nat)
    }

    /// The whole tile in place `index` of the row of frame `frame`, cut out
    /// of the atlas.
    pub open spec fn spec_tile_image(&self, atlas: RasterView, index: int, frame: int) -> RasterView {
        atlas.cropped(
            (index * self.icon_size.x) as nat,
            (frame * self.icon_size.y) as nat,
            self.icon_size.x as nat,
            self.icon_size.y as nat,
        )
    }

    /// The cut lies inside the tile.
    pub open spec fn spec_cut_inside(&self) -> bool {
        self.cut_pos.x <= self.icon_size.x && self.cut_pos.y <= self.icon_size.y
    }

    /// Whether the corners of the tile in place `index` can be cut for
    /// `num_frames` frames: whether the left and top edges of the corners
    /// can be held in 32 bits.
    pub open spec fn spec_corners_fit(&self, index: int, num_frames: int) -> bool {
        &&& self.spec_cut_inside()
        &&& 0 <= index <= u32::MAX
        &&& index * self.icon_size.x + self.cut_pos.x <= u32::MAX
        &&& num_frames > 0 ==> (num_frames - 1) * self.icon_size.y + self.cut_pos.y <= u32::MAX
    }

    /// Whether `frames` holds the given corner of the tile in place `index`
    /// of each of `num_frames` frames of the atlas.
    pub open spec fn spec_is_corner_frames(
        &self,
        frames: Vec<Raster>,
        atlas: RasterView,
        index: int,
        num_frames: int,
        corner: Corner,
    ) -> bool {
        &&& frames@.len() == num_frames
        &&& forall|f: int|
            0 <= f < num_frames ==> (#[trigger] frames@[f])@ == self.spec_corner_image(
                atlas,
                index,
                f,
                corner,
            )
    }

    /// Whether `tile` holds the four corners of the tile in place `index`
    /// of the atlas, in the order of `Corner::all`, frame by frame.
    pub open spec fn spec_is_tile_corners(
        &self,
        tile: Vec<Vec<Raster>>,
        atlas: RasterView,
        index: int,
        num_frames: int,
    ) -> bool {
        &&& tile@.len() == 4
        &&& forall|c: int|
            0 <= c < 4 ==> self.spec_is_corner_frames(
                #[trigger] tile@[c],
                atlas,
                index,
                num_frames,
                Corner::spec_all()[c],
            )
    }

    /// Cuts the four corners of one tile of the atlas out of each frame.
    /// The result lists, for each corner in the order of `Corner::all`, its
    /// image of each frame.
    pub fn build_corner(
        &self,
        img: &Raster,
        position: u32,
        position_count: u32,
        dir_index: u32,
        num_frames: u32,
        prefab_count: u32,
    ) -> (r: Vec<Vec<Raster>>)
        requires
            position_count + prefab_count <= u32::MAX,
            dir_index * (position_count + prefab_count) <= u32::MAX,
            self.spec_corners_fit(
                BitmaskSlice::tile_index(
                    dir_index as int,
                    position_count + prefab_count,
                    position as int,
                ),
                num_frames as int,
            ),
        ensures
            self.spec_is_tile_corners(
                r,
                img@,
                BitmaskSlice::tile_index(
                    dir_index as int,
                    position_count + prefab_count,
                    position as int,
                ),
                num_frames as int,
            ),
    {
        let corners = Corner::all();
        let ghost index_spec = BitmaskSlice::tile_index(
            dir_index as int,
            position_count + prefab_count,
            position as int,
        );
        let index: u32 = dir_index * (position_count + prefab_count) + position;
        proof {
            lemma_rect_fits(
                index as int,
                self.icon_size.x as int,
                self.cut_pos.x as int,
            );
        }
        let left: u32 = index * self.icon_size.x;
        let mut out: Vec<Vec<Raster>> = Vec::new();
        let mut c: usize = 0;
        while c < 4
            invariant
                c <= 4,
                corners@ == Corner::spec_all(),
                self.spec_corners_fit(index_spec, num_frames as int),
                index == index_spec,
                left == index * self.icon_size.x,
                out@.len() == c,
                forall|k: int|
                    0 <= k < c ==> self.spec_is_corner_frames(
                        #[trigger] out@[k],
                        img@,
                        index_spec,
                        num_frames as int,
                        Corner::spec_all()[k],
                    ),
            decreases 4 - c,
        {
            let corner = corners[c];
            let (x_side, y_side) = corner.sides_of_corner();
            let x_spacing = self.get_side_info(x_side);
            let y_spacing = self.get_side_info(y_side);
            let x: u32 = left + x_spacing.start;
            let width: u32 = x_spacing.step();
            let height: u32 = y_spacing.step();
            let mut frame_vec: Vec<Raster> = Vec::new();
            let mut frame_num: u32 = 0;
            while frame_num < num_frames
                invariant
                    frame_num <= num_frames,
                    c < 4,
                    self.spec_corners_fit(index_spec, num_frames as int),
                    index == index_spec,
                    corner == Corner::spec_all()[c as int],
                    (x_side, y_side) == corner.spec_sides_of_corner(),
                    x_spacing == self.spec_get_side_info(x_side),
                    y_spacing == self.spec_get_side_info(y_side),
                    x == index * self.icon_size.x + x_spacing.start,
                    width == x_spacing.end - x_spacing.start,
                    height == y_spacing.end - y_spacing.start,
                    frame_vec@.len() == frame_num,
                    forall|f: int|
                        0 <= f < frame_num ==> (#[trigger] frame_vec@[f])@
                            == self.spec_corner_image(img@, index_spec, f, corner),
                decreases num_frames - frame_num,
            {
                proof {
                    lemma_rect_fits(
                        frame_num as int,
                        self.icon_size.y as int,
                        self.cut_pos.y as int,
                    );
                    lemma_scale_le(
                        frame_num as int,
                        num_frames - 1,
                        self.icon_size.y as int,
                    );
                }
                let y: u32 = frame_num * self.icon_size.y + y_spacing.start;
                let corner_img = img.crop_imm(x, y, width, height);
                frame_vec.push(corner_img);
                frame_num += 1;
            }
            out.push(frame_vec);
            c += 1;
        }
        out
    }

    /// The number of frames of an atlas: how many tiles fit its height.
    pub open spec fn spec_num_frames(&self, atlas: RasterView) -> int {
        atlas.height as int / self.icon_size.y as int
    }

    /// The column that the configuration gives the tile of a kind of corner.
    pub open spec fn spec_corner_column(&self, kind: int) -> int {
        self.positions@[kind].unwrap() as int
    }

    /// The column that the configuration gives prefab `entry`.
    pub open spec fn spec_prefab_column(&self, entry: int) -> int {
        self.prefabs.unwrap()@[entry].1 as int
    }

    /// Whether the tile in a column can be cut for every direction: whether
    /// the place of the tile of the last direction, its left edge and that
    /// edge moved right by `margin` can be held in 32 bits.
    pub open spec fn spec_column_fits(&self, column: int, margin: int) -> bool {
        let last = BitmaskSlice::tile_index(
            self.spec_direction_count() - 1,
            self.spec_tiles_per_direction() as int,
            column,
        );
        last <= u32::MAX && last * self.icon_size.x + margin <= u32::MAX
    }

    /// What cutting the atlas asks of the configuration: tiles have a
    /// height, the cut lies inside the tile, each kind of corner in use has
    /// a column, and the tiles of all columns can be cut.
    pub open spec fn spec_can_cut(&self) -> bool {
        &&& self.icon_size.y > 0
        &&& self.spec_cut_inside()
        &&& self.spec_tiles_per_direction() <= u32::MAX
        &&& forall|kind: int|
            0 <= kind < self.output_type.spec_corners_used().len() ==> (
            #[trigger] self.positions@[kind]) is Some && self.spec_column_fits(
                self.spec_corner_column(kind),
                self.cut_pos.x as int,
            )
        &&& forall|entry: int|
            0 <= entry < self.spec_prefab_count() ==> self.spec_column_fits(
                #[trigger] self.spec_prefab_column(entry),
                0,
            )
    }

    /// Whether `direction` holds the corners of the tiles of input
    /// direction `dir_index`, kind by kind.
    pub open spec fn spec_is_direction_corners(
        &self,
        direction: Vec<Vec<Vec<Raster>>>,
        atlas: RasterView,
        dir_index: int,
    ) -> bool {
        &&& direction@.len() == self.output_type.spec_corners_used().len()
        &&& forall|kind: int|
            0 <= kind < direction@.len() ==> self.spec_is_tile_corners(
                #[trigger] direction@[kind],
                atlas,
                BitmaskSlice::tile_index(
                    dir_index,
                    self.spec_tiles_per_direction() as int,
                    self.spec_corner_column(kind),
                ),
                self.spec_num_frames(atlas),
            )
    }

    /// Whether `corners` holds the corners of the atlas that the
    /// configuration describes.
    pub open spec fn spec_is_corner_library(&self, corners: CornerPayload, atlas: RasterView) -> bool {
        &&& corners@.len() == self.spec_direction_count()
        &&& forall|d: int|
            0 <= d < corners@.len() ==> self.spec_is_direction_corners(
                #[trigger] corners@[d],
                atlas,
                d,
            )
    }

    /// Whether `frames` holds the tile in place `index` of each frame of
    /// the atlas.
    pub open spec fn spec_is_tile_frames(
        &self,
        frames: Vec<Raster>,
        atlas: RasterView,
        index: int,
    ) -> bool {
        &&& frames@.len() == self.spec_num_frames(atlas)
        &&& forall|f: int|
            0 <= f < frames@.len() ==> (#[trigger] frames@[f])@ == self.spec_tile_image(
                atlas,
                index,
                f,
            )
    }

    /// Whether `direction` holds the prefab tiles of input direction
    /// `dir_index`, in the order of the configuration.
    pub open spec fn spec_is_direction_prefabs(
        &self,
        direction: Vec<Vec<Raster>>,
        atlas: RasterView,
        dir_index: int,
    ) -> bool {
        &&& direction@.len() == self.spec_prefab_count()
        &&& forall|entry: int|
            0 <= entry < direction@.len() ==> self.spec_is_tile_frames(
                #[trigger] direction@[entry],
                atlas,
                BitmaskSlice::tile_index(
                    dir_index,
                    self.spec_tiles_per_direction() as int,
                    self.spec_prefab_column(entry),
                ),
            )
    }

    /// Whether `prefabs` holds the prefab tiles of the atlas that the
    /// configuration describes.
    pub open spec fn spec_is_prefab_library(&self, prefabs: PrefabPayload, atlas: RasterView) -> bool {
        &&& prefabs@.len() == self.spec_direction_count()
        &&& forall|d: int|
            0 <= d < prefabs@.len() ==> self.spec_is_direction_prefabs(
                #[trigger] prefabs@[d],
                atlas,
                d,
            )
    }

    /// Cuts the atlas into the corners of the tiles of each kind of corner
    /// in use, and into the prefab tiles, for each input direction.
    #[verifier::rlimit(40)]
    pub fn generate_corners(&self, img: &Raster) -> (r: Result<
        (CornerPayload, PrefabPayload),
        ProcessorError,
    >)
        requires
            self.spec_can_cut(),
        ensures
            r matches Ok(libraries) && self.spec_is_corner_library(libraries.0, img@)
                && self.spec_is_prefab_library(libraries.1, img@),
    {
        proof {
            use_type_invariant(img);
        }
        let height: u32 = img.height();
        let num_frames: u32 = height / self.icon_size.y;
        let corner_types = self.output_type.corners_used();
        let direction_positions = self.direction_strategy.input_positions();
        let prefab_count: u32 = match &self.prefabs {
            Some(prefabs) => prefabs.count() as u32,
            None => 0,
        };
        let position_count: u32 = self.positions.count() as u32;
        let direction_count: usize = direction_positions.len();
        proof {
            lemma_frames_fit(
                img@.height as int,
                self.icon_size.y as int,
                self.cut_pos.y as int,
            );
        }
        let mut corner_directions: CornerPayload = Vec::new();
        let mut d: usize = 0;
        while d < direction_count
            invariant
                d <= direction_count,
                direction_count == self.spec_direction_count(),
                1 <= direction_count <= 8,
                self.spec_can_cut(),
                num_frames == self.spec_num_frames(img@),
                num_frames > 0 ==> (num_frames - 1) * self.icon_size.y + self.cut_pos.y
                    <= u32::MAX,
                corner_types@ == self.output_type.spec_corners_used(),
                forall|i: int|
                    0 <= i < corner_types@.len() ==> (#[trigger] corner_types@[i]).spec_ordinal()
                        == i,
                direction_positions@.len() == direction_count,
                forall|i: int|
                    0 <= i < direction_count ==> (#[trigger] direction_positions@[i]).1 == i,
                position_count == self.positions.spec_count(),
                prefab_count == self.spec_prefab_count(),
                corner_directions@.len() == d,
                forall|k: int|
                    0 <= k < d ==> self.spec_is_direction_corners(
                        #[trigger] corner_directions@[k],
                        img@,
                        k,
                    ),
            decreases direction_count - d,
        {
            let dir_index: u32 = direction_positions[d].1;
            let mut corner_map: Vec<Vec<Vec<Raster>>> = Vec::new();
            let mut t: usize = 0;
            while t < corner_types.len()
                invariant
                    t <= corner_types@.len(),
                    d < direction_count,
                    dir_index == d,
                    direction_count == self.spec_direction_count(),
                    self.spec_can_cut(),
                    num_frames == self.spec_num_frames(img@),
                    num_frames > 0 ==> (num_frames - 1) * self.icon_size.y + self.cut_pos.y
                        <= u32::MAX,
                    corner_types@ == self.output_type.spec_corners_used(),
                    forall|i: int|
                        0 <= i < corner_types@.len() ==> (
                        #[trigger] corner_types@[i]).spec_ordinal() == i,
                    position_count == self.positions.spec_count(),
                    prefab_count == self.spec_prefab_count(),
                    corner_map@.len() == t,
                    forall|kind: int|
                        0 <= kind < t ==> self.spec_is_tile_corners(
                            #[trigger] corner_map@[kind],
                            img@,
                            BitmaskSlice::tile_index(
                                d as int,
                                self.spec_tiles_per_direction() as int,
                                self.spec_corner_column(kind),
                            ),
                            num_frames as int,
                        ),
                decreases corner_types@.len() - t,
            {
                let corner_type = corner_types[t];
                assert(corner_type.spec_ordinal() == t);
                assert(self.positions@[t as int] is Some);
                let position: u32 = self.positions.get(corner_type).unwrap();
                proof {
                    assert(self.spec_column_fits(
                        self.spec_corner_column(t as int),
                        self.cut_pos.x as int,
                    ));
                    lemma_column_fits(
                        d as int,
                        direction_count as int,
                        self.spec_tiles_per_direction() as int,
                        position as int,
                        self.icon_size.x as int,
                        self.cut_pos.x as int,
                    );
                }
                let corners = self.build_corner(
                    img,
                    position,
                    position_count,
                    dir_index,
                    num_frames,
                    prefab_count,
                );
                corner_map.push(corners);
                t += 1;
            }
            corner_directions.push(corner_map);
            d += 1;
        }
        let mut prefab_directions: PrefabPayload = Vec::new();
        let mut d: usize = 0;
        while d < direction_count
            invariant
                d <= direction_count,
                direction_count == self.spec_direction_count(),
                1 <= direction_count <= 8,
                self.spec_can_cut(),
                num_frames == self.spec_num_frames(img@),
                num_frames * self.icon_size.y <= u32::MAX,
                direction_positions@.len() == direction_count,
                forall|i: int|
                    0 <= i < direction_count ==> (#[trigger] direction_positions@[i]).1 == i,
                position_count == self.positions.spec_count(),
                prefab_count == self.spec_prefab_count(),
                prefab_directions@.len() == d,
                forall|k: int|
                    0 <= k < d ==> self.spec_is_direction_prefabs(
                        #[trigger] prefab_directions@[k],
                        img@,
                        k,
                    ),
            decreases direction_count - d,
        {
            let dir_index: u32 = direction_positions[d].1;
            let mut prefabs: Vec<Vec<Raster>> = Vec::new();
            if let Some(prefabs_config) = &self.prefabs {
                let entries = prefabs_config.entries();
                let mut e: usize = 0;
                while e < entries.len()
                    invariant
                        e <= entries@.len(),
                        entries@ == self.prefabs.unwrap()@,
                        self.prefabs is Some,
                        d < direction_count,
                        dir_index == d,
                        direction_count == self.spec_direction_count(),
                        self.spec_can_cut(),
                        num_frames == self.spec_num_frames(img@),
                        num_frames * self.icon_size.y <= u32::MAX,
                        position_count == self.positions.spec_count(),
                        prefab_count == self.spec_prefab_count(),
                        prefabs@.len() == e,
                        forall|entry: int|
                            0 <= entry < e ==> self.spec_is_tile_frames(
                                #[trigger] prefabs@[entry],
                                img@,
                                BitmaskSlice::tile_index(
                                    d as int,
                                    self.spec_tiles_per_direction() as int,
                                    self.spec_prefab_column(entry),
                                ),
                            ),
                    decreases entries@.len() - e,
                {
                    let position: u32 = entries[e].1;
                    proof {
                        assert(self.spec_column_fits(self.spec_prefab_column(e as int), 0));
                        lemma_column_fits(
                            d as int,
                            direction_count as int,
                            self.spec_tiles_per_direction() as int,
                            position as int,
                            self.icon_size.x as int,
                            0,
                        );
                    }
                    let input_index: u32 = dir_index * (position_count + prefab_count) + position;
                    let x: u32 = input_index * self.icon_size.x;
                    let mut frame_vector: Vec<Raster> = Vec::new();
                    let mut frame: u32 = 0;
                    while frame < num_frames
                        invariant
                            frame <= num_frames,
                            num_frames == self.spec_num_frames(img@),
                            num_frames * self.icon_size.y <= u32::MAX,
                            x == input_index * self.icon_size.x,
                            frame_vector@.len() == frame,
                            forall|f: int|
                                0 <= f < frame ==> (#[trigger] frame_vector@[f])@
                                    == self.spec_tile_image(img@, input_index as int, f),
                        decreases num_frames - frame,
                    {
                        proof {
                            lemma_scale_le(
                                frame as int,
                                num_frames as int,
                                self.icon_size.y as int,
                            );
                        }
                        let y: u32 = frame * self.icon_size.y;
                        let tile = img.crop_imm(x, y, self.icon_size.x, self.icon_size.y);
                        frame_vector.push(tile);
                        frame += 1;
                    }
                    prefabs.push(frame_vector);
                    e += 1;
                }
            }
            prefab_directions.push(prefabs);
            d += 1;
        }
        Ok((corner_directions, prefab_directions))
    }

    /// The place of the prefab for an adjacency in the configuration; -1
    /// where the adjacency has none.
    pub open spec fn spec_prefab_entry(&self, adjacency: Adjacency) -> int {
        match self.prefabs {
            Some(prefabs) => entry_index(prefabs@, adjacency, prefabs@.len()),
            None => -1,
        }
    }

    /// An output tile that shows a prefab tile: the tile placed on a
    /// transparent canvas at the output position.
    pub open spec fn spec_compose_prefab(&self, tile: RasterView) -> RasterView {
        RasterView::blank(self.output_icon_size.x as nat, self.output_icon_size.y as nat).replaced(
            tile,
            self.output_icon_pos.x as nat,
            self.output_icon_pos.y as nat,
        )
    }

    /// An output tile with the first `count` corners, in the order of
    /// `Corner::all`, blended onto a transparent canvas, each where its
    /// sides begin.
    pub open spec fn spec_overlay_corners(&self, images: Seq<RasterView>, count: nat) -> RasterView
        decreases count,
    {
        if count == 0 {
            RasterView::blank(self.output_icon_size.x as nat, self.output_icon_size.y as nat)
        } else {
            let sides = Corner::spec_all()[count - 1].spec_sides_of_corner();
            self.spec_overlay_corners(images, (count - 1) as nat).overlaid(
                images[count - 1],
                self.spec_get_side_info(sides.0).start as nat,
                self.spec_get_side_info(sides.1).start as nat,
            )
        }
    }

    /// The output tile for an adjacency in frame `f` of input direction
    /// `d`, composed from what was cut out of the atlas: the prefab of the
    /// adjacency where it has one, and else the four corners of the kinds
    /// that the adjacency shows.
    pub open spec fn spec_composed_from(
        &self,
        corners: CornerPayload,
        prefabs: PrefabPayload,
        d: int,
        adjacency: Adjacency,
        f: int,
    ) -> RasterView {
        let entry = self.spec_prefab_entry(adjacency);
        if entry >= 0 {
            self.spec_compose_prefab(prefabs@[d]@[entry]@[f]@)
        } else {
            self.spec_overlay_corners(
                Seq::new(
                    4,
                    |c: int|
                        corners@[d]@[adjacency.spec_get_corner_type(
                            Corner::spec_all()[c],
                        ).spec_ordinal()]@[c]@[f]@,
                ),
                4,
            )
        }
    }

    /// The output tile for an adjacency in frame `f` of input direction
    /// `d` of an atlas.
    pub open spec fn spec_composed(
        &self,
        atlas: RasterView,
        d: int,
        adjacency: Adjacency,
        f: int,
    ) -> RasterView {
        let entry = self.spec_prefab_entry(adjacency);
        let tiles = self.spec_tiles_per_direction() as int;
        if entry >= 0 {
            self.spec_compose_prefab(
                self.spec_tile_image(
                    atlas,
                    BitmaskSlice::tile_index(d, tiles, self.spec_prefab_column(entry)),
                    f,
                ),
            )
        } else {
            self.spec_overlay_corners(
                Seq::new(
                    4,
                    |c: int|
                        self.spec_corner_image(
                            atlas,
                            BitmaskSlice::tile_index(
                                d,
                                tiles,
                                self.spec_corner_column(
                                    adjacency.spec_get_corner_type(
                                        Corner::spec_all()[c],
                                    ).spec_ordinal(),
                                ),
                            ),
                            f,
                            Corner::spec_all()[c],
                        ),
                ),
                4,
            )
        }
    }

    /// Whether `tile` lists, for each of the four corners, an image for
    /// each of `num_frames` frames.
    pub open spec fn spec_tile_shape(tile: Vec<Vec<Raster>>, num_frames: int) -> bool {
        &&& tile@.len() == 4
        &&& forall|c: int| 0 <= c < 4 ==> (#[trigger] tile@[c])@.len() == num_frames
    }

    /// Whether `direction` lists such a tile for each kind of corner in use.
    pub open spec fn spec_direction_shape(
        &self,
        direction: Vec<Vec<Vec<Raster>>>,
        num_frames: int,
    ) -> bool {
        &&& direction@.len() == self.output_type.spec_corners_used().len()
        &&& forall|kind: int|
            0 <= kind < direction@.len() ==> BitmaskSlice::spec_tile_shape(
                #[trigger] direction@[kind],
                num_frames,
            )
    }

    /// Whether `direction` lists, for each prefab of the configuration, an
    /// image for each of `num_frames` frames.
    pub open spec fn spec_prefab_shape(&self, direction: Vec<Vec<Raster>>, num_frames: int) -> bool {
        &&& direction@.len() == self.spec_prefab_count()
        &&& forall|entry: int|
            0 <= entry < direction@.len() ==> (#[trigger] direction@[entry])@.len() == num_frames
    }

    /// Whether the two libraries have an entry for each input direction,
    /// kind of corner in use, corner, prefab and frame.
    pub open spec fn spec_library_shapes(
        &self,
        corners: CornerPayload,
        prefabs: PrefabPayload,
        num_frames: int,
    ) -> bool {
        &&& corners@.len() == self.spec_direction_count()
        &&& prefabs@.len() == self.spec_direction_count()
        &&& forall|d: int|
            0 <= d < corners@.len() ==> self.spec_direction_shape(
                #[trigger] corners@[d],
                num_frames,
            )
        &&& forall|d: int|
            0 <= d < prefabs@.len() ==> self.spec_prefab_shape(#[trigger] prefabs@[d], num_frames)
    }

    /// Whether an output tile can be composed for an adjacency: it has a
    /// prefab, or the atlas supplies the kind of each of its corners.
    pub open spec fn spec_can_compose(&self, adjacency: Adjacency) -> bool {
        self.spec_prefab_entry(adjacency) >= 0 || forall|corner: Corner|
            self.output_type.spec_uses(#[trigger] adjacency.spec_get_corner_type(corner))
    }

    /// Whether `frames` holds the output tile for an adjacency in each
    /// frame of input direction `d`.
    pub open spec fn spec_is_composed_frames(
        &self,
        frames: Vec<Raster>,
        corners: CornerPayload,
        prefabs: PrefabPayload,
        d: int,
        adjacency: Adjacency,
        num_frames: int,
    ) -> bool {
        &&& frames@.len() == num_frames
        &&& forall|f: int|
            0 <= f < num_frames ==> (#[trigger] frames@[f])@ == self.spec_composed_from(
                corners,
                prefabs,
                d,
                adjacency,
                f,
            )
    }

    /// Whether `direction` holds the output tiles of input direction `d`
    /// for each of the adjacencies, frame by frame.
    pub open spec fn spec_is_direction_icons(
        &self,
        direction: Vec<Vec<Raster>>,
        corners: CornerPayload,
        prefabs: PrefabPayload,
        d: int,
        adjacencies: Seq<Adjacency>,
        num_frames: int,
    ) -> bool {
        &&& direction@.len() == adjacencies.len()
        &&& forall|a: int|
            0 <= a < adjacencies.len() ==> self.spec_is_composed_frames(
                #[trigger] direction@[a],
                corners,
                prefabs,
                d,
                adjacencies[a],
                num_frames,
            )
    }

    /// Composes the output tile of each adjacency for each input direction
    /// and frame: the prefab of the adjacency on a transparent canvas where
    /// it has one, and else its four corners blended onto one.
    #[verifier::rlimit(40)]
    pub fn generate_icons(
        &self,
        corners: &CornerPayload,
        prefabs: &PrefabPayload,
        num_frames: u32,
        possible_adjacencies: &Vec<Adjacency>,
    ) -> (r: Vec<Vec<Vec<Raster>>>)
        requires
            self.spec_library_shapes(*corners, *prefabs, num_frames as int),
            forall|a: int|
                0 <= a < possible_adjacencies@.len() ==> self.spec_can_compose(
                    #[trigger] possible_adjacencies@[a],
                ),
            4 * self.output_icon_size.x * self.output_icon_size.y <= isize::MAX,
        ensures
            r@.len() == self.spec_direction_count(),
            forall|d: int|
                0 <= d < r@.len() ==> self.spec_is_direction_icons(
                    #[trigger] r@[d],
                    *corners,
                    *prefabs,
                    d,
                    possible_adjacencies@,
                    num_frames as int,
                ),
    {
        let directions = self.direction_strategy.input_vec();
        let all_corners = Corner::all();
        let mut assembled_map: Vec<Vec<Vec<Raster>>> = Vec::new();
        let mut d: usize = 0;
        while d < directions.len()
            invariant
                d <= directions@.len(),
                directions@.len() == self.spec_direction_count(),
                all_corners@ == Corner::spec_all(),
                self.spec_library_shapes(*corners, *prefabs, num_frames as int),
                forall|a: int|
                    0 <= a < possible_adjacencies@.len() ==> self.spec_can_compose(
                        #[trigger] possible_adjacencies@[a],
                    ),
                4 * self.output_icon_size.x * self.output_icon_size.y <= isize::MAX,
                assembled_map@.len() == d,
                forall|k: int|
                    0 <= k < d ==> self.spec_is_direction_icons(
                        #[trigger] assembled_map@[k],
                        *corners,
                        *prefabs,
                        k,
                        possible_adjacencies@,
                        num_frames as int,
                    ),
            decreases directions@.len() - d,
        {
            let corner_map = &corners[d];
            let prefab_map = &prefabs[d];
            let mut assembled: Vec<Vec<Raster>> = Vec::new();
            let mut a: usize = 0;
            while a < possible_adjacencies.len()
                invariant
                    a <= possible_adjacencies@.len(),
                    d < self.spec_direction_count(),
                    all_corners@ == Corner::spec_all(),
                    *corner_map == corners@[d as int],
                    *prefab_map == prefabs@[d as int],
                    self.spec_direction_shape(*corner_map, num_frames as int),
                    self.spec_prefab_shape(*prefab_map, num_frames as int),
                    forall|k: int|
                        0 <= k < possible_adjacencies@.len() ==> self.spec_can_compose(
                            #[trigger] possible_adjacencies@[k],
                        ),
                    4 * self.output_icon_size.x * self.output_icon_size.y <= isize::MAX,
                    assembled@.len() == a,
                    forall|k: int|
                        0 <= k < a ==> self.spec_is_composed_frames(
                            #[trigger] assembled@[k],
                            *corners,
                            *prefabs,
                            d as int,
                            possible_adjacencies@[k],
                            num_frames as int,
                        ),
                decreases possible_adjacencies@.len() - a,
            {
                let adjacency = possible_adjacencies[a];
                assert(self.spec_can_compose(adjacency));
                let prefab_entry: Option<usize> = match &self.prefabs {
                    Some(config) => config.find(adjacency),
                    None => None,
                };
                let mut icon_state_images: Vec<Raster> = Vec::new();
                let mut frame: u32 = 0;
                while frame < num_frames
                    invariant
                        frame <= num_frames,
                        d < self.spec_direction_count(),
                        all_corners@ == Corner::spec_all(),
                        *corner_map == corners@[d as int],
                        *prefab_map == prefabs@[d as int],
                        self.spec_direction_shape(*corner_map, num_frames as int),
                        self.spec_prefab_shape(*prefab_map, num_frames as int),
                        self.spec_can_compose(adjacency),
                        match prefab_entry {
                            Some(entry) => entry == self.spec_prefab_entry(adjacency),
                            None => self.spec_prefab_entry(adjacency) == -1,
                        },
                        prefab_entry matches Some(entry) ==> entry < self.spec_prefab_count(),
                        4 * self.output_icon_size.x * self.output_icon_size.y <= isize::MAX,
                        icon_state_images@.len() == frame,
                        forall|f: int|
                            0 <= f < frame ==> (#[trigger] icon_state_images@[f])@
                                == self.spec_composed_from(
                                *corners,
                                *prefabs,
                                d as int,
                                adjacency,
                                f,
                            ),
                    decreases num_frames - frame,
                {
                    let mut frame_image = Raster::blank(
                        self.output_icon_size.x,
                        self.output_icon_size.y,
                    );
                    match prefab_entry {
                        Some(entry) => {
                            let tile = &prefab_map[entry][frame as usize];
                            frame_image.replace(tile, self.output_icon_pos.x, self.output_icon_pos.y);
                        },
                        None => {
                            let ghost images = Seq::new(
                                4,
                                |c: int|
                                    corners@[d as int]@[adjacency.spec_get_corner_type(
                                        Corner::spec_all()[c],
                                    ).spec_ordinal()]@[c]@[frame as int]@,
                            );
                            let mut c: usize = 0;
                            while c < 4
                                invariant
                                    c <= 4,
                                    frame < num_frames,
                                    all_corners@ == Corner::spec_all(),
                                    *corner_map == corners@[d as int],
                                    self.spec_direction_shape(*corner_map, num_frames as int),
                                    forall|corner: Corner|
                                        self.output_type.spec_uses(
                                            #[trigger] adjacency.spec_get_corner_type(corner),
                                        ),
                                    images == Seq::new(
                                        4,
                                        |c: int|
                                            corners@[d as int]@[adjacency.spec_get_corner_type(
                                                Corner::spec_all()[c],
                                            ).spec_ordinal()]@[c]@[frame as int]@,
                                    ),
                                    frame_image@ == self.spec_overlay_corners(images, c as nat),
                                decreases 4 - c,
                            {
                                let corner = all_corners[c];
                                let corner_type = adjacency.get_corner_type(corner);
                                assert(self.output_type.spec_uses(corner_type));
                                let kind: usize = corner_type.ordinal();
                                assert(BitmaskSlice::spec_tile_shape(
                                    corner_map@[kind as int],
                                    num_frames as int,
                                ));
                                let corner_img = &corner_map[kind][c][frame as usize];
                                let (horizontal, vertical) = corner.sides_of_corner();
                                let horizontal = self.get_side_info(horizontal);
                                let vertical = self.get_side_info(vertical);
                                assert(images[c as int] == corner_img@);
                                frame_image.overlay(corner_img, horizontal.start, vertical.start);
                                c += 1;
                            }
                        },
                    }
                    icon_state_images.push(frame_image);
                    frame += 1;
                }
                assembled.push(icon_state_images);
                a += 1;
            }
            assembled_map.push(assembled);
            d += 1;
        }
        assembled_map
    }

    /// The name of the icon state of an adjacency: its text form, behind
    /// the output name and a hyphen where there is an output name.
    pub open spec fn spec_state_name(&self, adjacency: Adjacency) -> Seq<char> {
        match self.output_name {
            Some(prefix) => prefix@ + seq!['-'] + adjacency.spec_pretty_print(),
            None => adjacency.spec_pretty_print(),
        }
    }

    /// The delays of an icon state of `num_frames` frames: those of the
    /// animation, repeated or cut to one for each frame.
    pub open spec fn spec_delay(&self, num_frames: int) -> Option<Seq<nat>> {
        match self.animation {
            Some(animation) => Some(
                delay_values(spec_repeat_for(animation.delays@, num_frames as nat)),
            ),
            None => None,
        }
    }

    /// Whether the icon states run backwards after they ran forwards.
    pub open spec fn spec_rewind(&self) -> bool {
        match self.animation {
            Some(animation) => animation.rewind == Some(true),
            None => false,
        }
    }

    /// The number of directions of each icon state.
    pub open spec fn spec_output_count(&self) -> nat {
        self.direction_strategy.spec_output_vec().len()
    }

    /// The input direction whose tiles output direction `i` shows: the
    /// only one where directions are rotations, and else the same.
    pub open spec fn spec_source_direction(&self, i: int) -> int {
        if self.direction_strategy == DirectionStrategy::CardinalsRotated {
            0
        } else {
            i
        }
    }

    /// The images of the icon state of an adjacency before repeated frames
    /// are removed: frame by frame, and within a frame direction by
    /// direction, the output tile of the adjacency that the direction
    /// shows.
    pub open spec fn spec_state_images(&self, atlas: RasterView, adjacency: Adjacency) -> Seq<
        RasterView,
    > {
        let dirs = self.spec_output_count() as int;
        Seq::new(
            (self.spec_num_frames(atlas) * dirs) as nat,
            |k: int|
                self.spec_composed(
                    atlas,
                    self.spec_source_direction(k % dirs),
                    self.direction_strategy.spec_rotate_adjacency(
                        adjacency,
                        self.direction_strategy.spec_output_vec()[k % dirs],
                    ),
                    k / dirs,
                ),
        )
    }

    /// The icon state of an adjacency.
    pub open spec fn spec_state(&self, atlas: RasterView, adjacency: Adjacency) -> IconStateView {
        spec_dedupe_frames(
            IconStateView {
                name: self.spec_state_name(adjacency),
                dirs: self.spec_output_count(),
                frames: self.spec_num_frames(atlas) as nat,
                images: self.spec_state_images(atlas, adjacency),
                delay: self.spec_delay(self.spec_num_frames(atlas)),
                rewind: self.spec_rewind(),
            },
        )
    }

    /// The icon states of the first `count` adjacencies that get composed:
    /// one for each that has no orphaned corner, in their order.
    pub open spec fn spec_states_upto(&self, atlas: RasterView, count: nat) -> Seq<IconStateView>
        decreases count,
    {
        if count == 0 {
            Seq::empty()
        } else {
            let before = self.spec_states_upto(atlas, (count - 1) as nat);
            let adjacency = self.output_type.spec_output_adjacencies()[count - 1];
            if adjacency.spec_has_no_orphaned_corner() {
                before.push(self.spec_state(atlas, adjacency))
            } else {
                before
            }
        }
    }

    /// The icon state of the map icon, if there is one.
    pub open spec fn spec_map_icon_states(&self) -> Seq<IconStateView> {
        match self.map_icon {
            Some(map_icon) => seq![
                IconStateView {
                    name: map_icon.icon_state_name@,
                    dirs: 1,
                    frames: 1,
                    images: seq![map_icon.image@],
                    delay: None,
                    rewind: false,
                },
            ],
            None => Seq::empty(),
        }
    }

    /// The icon that is cut out of an atlas: tiles of the output size, an
    /// icon state for each adjacency that gets composed and has no orphaned
    /// corner, and after them the map icon.
    pub open spec fn spec_cut_icon(&self, atlas: RasterView) -> IconView {
        IconView {
            width: self.output_icon_size.x as nat,
            height: self.output_icon_size.y as nat,
            states: self.spec_states_upto(
                atlas,
                self.output_type.spec_output_adjacencies().len(),
            ) + self.spec_map_icon_states(),
        }
    }

    /// What cutting an atlas into an icon asks of the configuration and the
    /// atlas, beyond a width that fits: that the atlas can be cut, that an
    /// output tile is no larger than the largest allocation, and that the
    /// delays of an icon state together can be held in 32 bits.
    pub open spec fn spec_valid_for(&self, atlas: RasterView) -> bool {
        &&& self.spec_can_cut()
        &&& 4 * self.output_icon_size.x * self.output_icon_size.y <= isize::MAX
        &&& self.spec_delay(self.spec_num_frames(atlas)) matches Some(delays) ==> delays_total(
            delays,
        ) <= u32::MAX
    }

    /// With the libraries of an atlas, the output tile composed from them
    /// is the output tile of the atlas.
    pub proof fn lemma_composed(
        &self,
        corners: CornerPayload,
        prefabs: PrefabPayload,
        atlas: RasterView,
        d: int,
        adjacency: Adjacency,
        f: int,
    )
        requires
            self.spec_is_corner_library(corners, atlas),
            self.spec_is_prefab_library(prefabs, atlas),
            self.spec_can_compose(adjacency),
            0 <= d < self.spec_direction_count(),
            0 <= f < self.spec_num_frames(atlas),
        ensures
            self.spec_composed_from(corners, prefabs, d, adjacency, f) == self.spec_composed(
                atlas,
                d,
                adjacency,
                f,
            ),
    {
        let entry = self.spec_prefab_entry(adjacency);
        let tiles = self.spec_tiles_per_direction() as int;
        assert(self.spec_is_direction_corners(corners@[d], atlas, d));
        assert(self.spec_is_direction_prefabs(prefabs@[d], atlas, d));
        if entry >= 0 {
            lemma_entry_index(self.prefabs.unwrap()@, adjacency, self.prefabs.unwrap()@.len());
            assert(self.spec_is_tile_frames(
                prefabs@[d]@[entry],
                atlas,
                BitmaskSlice::tile_index(d, tiles, self.spec_prefab_column(entry)),
            ));
        } else {
            let from_library = Seq::new(
                4,
                |c: int|
                    corners@[d]@[adjacency.spec_get_corner_type(
                        Corner::spec_all()[c],
                    ).spec_ordinal()]@[c]@[f]@,
            );
            let from_atlas = Seq::new(
                4,
                |c: int|
                    self.spec_corner_image(
                        atlas,
                        BitmaskSlice::tile_index(
                            d,
                            tiles,
                            self.spec_corner_column(
                                adjacency.spec_get_corner_type(
                                    Corner::spec_all()[c],
                                ).spec_ordinal(),
                            ),
                        ),
                        f,
                        Corner::spec_all()[c],
                    ),
            );
            assert forall|c: int| 0 <= c < 4 implies from_library[c] == from_atlas[c] by {
                let kind = adjacency.spec_get_corner_type(Corner::spec_all()[c]);
                assert(self.output_type.spec_uses(kind));
                let index = BitmaskSlice::tile_index(
                    d,
                    tiles,
                    self.spec_corner_column(kind.spec_ordinal()),
                );
                assert(self.spec_is_tile_corners(
                    corners@[d]@[kind.spec_ordinal()],
                    atlas,
                    index,
                    self.spec_num_frames(atlas),
                ));
                assert(self.spec_is_corner_frames(
                    corners@[d]@[kind.spec_ordinal()]@[c],
                    atlas,
                    index,
                    self.spec_num_frames(atlas),
                    Corner::spec_all()[c],
                ));
            }
            assert(from_library =~= from_atlas);
        }
    }

    /// The libraries of an atlas have an entry for everything.
    pub proof fn lemma_library_shapes(&self, corners: CornerPayload, prefabs: PrefabPayload, atlas: RasterView)
        requires
            self.spec_is_corner_library(corners, atlas),
            self.spec_is_prefab_library(prefabs, atlas),
        ensures
            self.spec_library_shapes(corners, prefabs, self.spec_num_frames(atlas)),
    {
        let num_frames = self.spec_num_frames(atlas);
        assert forall|d: int| 0 <= d < corners@.len() implies self.spec_direction_shape(
            #[trigger] corners@[d],
            num_frames,
        ) by {
            assert(self.spec_is_direction_corners(corners@[d], atlas, d));
            assert forall|kind: int| 0 <= kind < corners@[d]@.len() implies BitmaskSlice::spec_tile_shape(
                #[trigger] corners@[d]@[kind],
                num_frames,
            ) by {
                let tile = corners@[d]@[kind];
                let index = BitmaskSlice::tile_index(
                    d,
                    self.spec_tiles_per_direction() as int,
                    self.spec_corner_column(kind),
                );
                assert(self.spec_is_tile_corners(tile, atlas, index, num_frames));
                assert forall|c: int| 0 <= c < 4 implies (#[trigger] tile@[c])@.len()
                    == num_frames by {
                    assert(self.spec_is_corner_frames(
                        tile@[c],
                        atlas,
                        index,
                        num_frames,
                        Corner::spec_all()[c],
                    ));
                }
            }
        }
        assert forall|d: int| 0 <= d < prefabs@.len() implies self.spec_prefab_shape(
            #[trigger] prefabs@[d],
            num_frames,
        ) by {
            assert(self.spec_is_direction_prefabs(prefabs@[d], atlas, d));
            assert forall|entry: int| 0 <= entry < prefabs@[d]@.len() implies (
            #[trigger] prefabs@[d]@[entry])@.len() == num_frames by {
                assert(self.spec_is_tile_frames(
                    prefabs@[d]@[entry],
                    atlas,
                    BitmaskSlice::tile_index(
                        d,
                        self.spec_tiles_per_direction() as int,
                        self.spec_prefab_column(entry),
                    ),
                ));
            }
        }
    }

    /// Cuts an atlas into the icon that the configuration describes.
    pub fn cut_icon(&self, img: &Raster) -> (r: Icon)
        requires
            self.spec_valid_for(img@),
        ensures
            r@ == self.spec_cut_icon(img@),
    {
        let (corners, prefabs) = self.generate_corners(img).unwrap();
        self.assemble_icon(img, &corners, &prefabs)
    }

    /// Composes the icon that the configuration describes from what was
    /// cut out of an atlas.
    #[verifier::rlimit(40)]
    pub fn assemble_icon(&self, img: &Raster, corners: &CornerPayload, prefabs: &PrefabPayload) -> (r:
        Icon)
        requires
            self.spec_valid_for(img@),
            self.spec_is_corner_library(*corners, img@),
            self.spec_is_prefab_library(*prefabs, img@),
        ensures
            r@ == self.spec_cut_icon(img@),
    {
        proof {
            use_type_invariant(img);
        }
        let ghost atlas = img@;
        let num_frames: u32 = img.height() / self.icon_size.y;
        let possible_adjacencies = self.output_type.output_adjacencies();
        proof {
            self.lemma_library_shapes(*corners, *prefabs, atlas);
            assert forall|a: int| 0 <= a < possible_adjacencies@.len() implies self.spec_can_compose(
                #[trigger] possible_adjacencies@[a],
            ) by {
                self.lemma_can_compose(a);
            }
        }
        let assembled_map = self.generate_icons(
            corners,
            prefabs,
            num_frames,
            &possible_adjacencies,
        );
        let output_directions = self.direction_strategy.output_vec();
        let dir_count: u8 = output_directions.len() as u8;
        let rotated: bool = match self.direction_strategy {
            DirectionStrategy::CardinalsRotated => true,
            _ => false,
        };
        let mut icon_states: Vec<IconState> = Vec::new();
        let mut a: usize = 0;
        while a < possible_adjacencies.len()
            invariant
                a <= possible_adjacencies@.len(),
                atlas == img@,
                self.spec_valid_for(atlas),
                num_frames == self.spec_num_frames(atlas),
                self.spec_is_corner_library(*corners, atlas),
                self.spec_is_prefab_library(*prefabs, atlas),
                possible_adjacencies@ == self.output_type.spec_output_adjacencies(),
                forall|k: int|
                    0 <= k < possible_adjacencies@.len() ==> self.spec_can_compose(
                        #[trigger] possible_adjacencies@[k],
                    ),
                assembled_map@.len() == self.spec_direction_count(),
                forall|d: int|
                    0 <= d < assembled_map@.len() ==> self.spec_is_direction_icons(
                        #[trigger] assembled_map@[d],
                        *corners,
                        *prefabs,
                        d,
                        possible_adjacencies@,
                        num_frames as int,
                    ),
                output_directions@ == self.direction_strategy.spec_output_vec(),
                dir_count == self.spec_output_count(),
                rotated == (self.direction_strategy == DirectionStrategy::CardinalsRotated),
                state_views(icon_states@) == self.spec_states_upto(atlas, a as nat),
            decreases possible_adjacencies@.len() - a,
        {
            let adjacency = possible_adjacencies[a];
            let ghost before = state_views(icon_states@);
            if adjacency.has_no_orphaned_corner() {
                assert(0 <= (num_frames as int) * (dir_count as int) <= 8 * 0xffff_ffff)
                    by (nonlinear_arith)
                    requires
                        0 <= num_frames <= 0xffff_ffff,
                        0 <= dir_count <= 8,
                ;
                let total: u64 = (num_frames as u64) * (dir_count as u64);
                let mut images: Vec<Raster> = Vec::new();
                let mut k: u64 = 0;
                while k < total
                    invariant
                        k <= total,
                        total == num_frames * dir_count,
                        a < possible_adjacencies@.len(),
                        adjacency == possible_adjacencies@[a as int],
                        atlas == img@,
                        self.spec_valid_for(atlas),
                        num_frames == self.spec_num_frames(atlas),
                        self.spec_is_corner_library(*corners, atlas),
                        self.spec_is_prefab_library(*prefabs, atlas),
                        possible_adjacencies@ == self.output_type.spec_output_adjacencies(),
                        forall|i: int|
                            0 <= i < possible_adjacencies@.len() ==> self.spec_can_compose(
                                #[trigger] possible_adjacencies@[i],
                            ),
                        assembled_map@.len() == self.spec_direction_count(),
                        forall|d: int|
                            0 <= d < assembled_map@.len() ==> self.spec_is_direction_icons(
                                #[trigger] assembled_map@[d],
                                *corners,
                                *prefabs,
                                d,
                                possible_adjacencies@,
                                num_frames as int,
                            ),
                        output_directions@ == self.direction_strategy.spec_output_vec(),
                        dir_count == self.spec_output_count(),
                        rotated == (self.direction_strategy
                            == DirectionStrategy::CardinalsRotated),
                        images@.len() == k,
                        forall|i: int|
                            0 <= i < k ==> (#[trigger] images@[i])@ == self.spec_state_images(
                                atlas,
                                adjacency,
                            )[i],
                    decreases total - k,
                {
                    assert(dir_count == 1 || dir_count == 4 || dir_count == 8);
                    let f: usize = (k / (dir_count as u64)) as usize;
                    let di: usize = (k % (dir_count as u64)) as usize;
                    assert(f < num_frames);
                    let direction = output_directions[di];
                    let source = if rotated {
                        proof {
                            self.output_type.lemma_output_adjacencies_emitted(a as int);
                            self.output_type.lemma_rotation_emitted(adjacency, direction);
                            self.output_type.lemma_emitted_is_listed(
                                adjacency.spec_rotate_to(direction),
                            );
                        }
                        let turned = adjacency.rotate_to(direction);
                        let place: usize = find_adjacency(&possible_adjacencies, turned);
                        proof {
                            assert(self.spec_is_direction_icons(
                                assembled_map@[0],
                                *corners,
                                *prefabs,
                                0,
                                possible_adjacencies@,
                                num_frames as int,
                            ));
                            assert(self.spec_is_composed_frames(
                                assembled_map@[0]@[place as int],
                                *corners,
                                *prefabs,
                                0,
                                turned,
                                num_frames as int,
                            ));
                            self.lemma_composed(*corners, *prefabs, atlas, 0, turned, f as int);
                        }
                        &assembled_map[0][place][f]
                    } else {
                        proof {
                            assert(self.spec_is_direction_icons(
                                assembled_map@[di as int],
                                *corners,
                                *prefabs,
                                di as int,
                                possible_adjacencies@,
                                num_frames as int,
                            ));
                            assert(self.spec_is_composed_frames(
                                assembled_map@[di as int]@[a as int],
                                *corners,
                                *prefabs,
                                di as int,
                                adjacency,
                                num_frames as int,
                            ));
                            self.lemma_composed(
                                *corners,
                                *prefabs,
                                atlas,
                                di as int,
                                adjacency,
                                f as int,
                            );
                        }
                        &assembled_map[di][a][f]
                    };
                    images.push(source.clone());
                    k += 1;
                }
                assert(raster_views(images@) =~= self.spec_state_images(atlas, adjacency));
                let signature = adjacency.pretty_print();
                let name = match &self.output_name {
                    Some(prefix_name) => {
                        proof {
                            reveal_strlit("-");
                        }
                        let mut name = prefix_name.clone();
                        name.append("-");
                        name.append(signature.as_str());
                        assert(name@ =~= self.spec_state_name(adjacency));
                        name
                    },
                    None => signature,
                };
                let delay: Option<Vec<u32>> = match &self.animation {
                    Some(animation) => Some(repeat_for(&animation.delays, num_frames as usize)),
                    None => None,
                };
                let rewind: bool = match &self.animation {
                    Some(animation) => match animation.rewind {
                        Some(rewind) => rewind,
                        None => false,
                    },
                    None => false,
                };
                let state = IconState {
                    name,
                    dirs: dir_count,
                    frames: num_frames,
                    images,
                    delay,
                    rewind,
                };
                let deduped = dedupe_frames(state);
                icon_states.push(deduped);
                assert(state_views(icon_states@) =~= before.push(
                    self.spec_state(atlas, adjacency),
                ));
            } else {
                assert(state_views(icon_states@) =~= before);
            }
            a += 1;
        }
        let ghost cut = state_views(icon_states@);
        if let Some(map_icon) = &self.map_icon {
            let mut images: Vec<Raster> = Vec::new();
            images.push(map_icon.image.clone());
            let state = IconState {
                name: map_icon.icon_state_name.clone(),
                dirs: 1,
                frames: 1,
                images,
                delay: None,
                rewind: false,
            };
            assert(raster_views(state.images@) =~= seq![map_icon.image@]);
            icon_states.push(state);
        }
        assert(state_views(icon_states@) =~= cut + self.spec_map_icon_states());
        Icon {
            width: self.output_icon_size.x,
            height: self.output_icon_size.y,
            states: icon_states,
        }
    }

    /// Each adjacency that gets composed can be composed.
    pub proof fn lemma_can_compose(&self, a: int)
        requires
            0 <= a < self.output_type.spec_output_adjacencies().len(),
        ensures
            self.spec_can_compose(self.output_type.spec_output_adjacencies()[a]),
    {
        let adjacency = self.output_type.spec_output_adjacencies()[a];
        self.output_type.lemma_output_adjacencies_emitted(a);
        assert forall|corner: Corner|
            self.output_type.spec_uses(
                #[trigger] adjacency.spec_get_corner_type(corner),
            ) by {
            self.output_type.lemma_corner_type_is_used(adjacency, corner);
        }
    }

    /// The file name of the diagnostic image of one corner: the position
    /// and name of its input direction, the place of its tile in the row,
    /// the kind of corner and the corner.
    pub open spec fn spec_debug_name(d: int, direction: Direction, index: int, kind: CornerType, corner: Corner) -> Seq<
        char,
    > {
        "CORNER-"@ + decimal(d as nat) + direction.spec_name() + seq!['-'] + decimal(index as nat)
            + seq!['-'] + kind.spec_debug_name() + seq!['-'] + corner.spec_name()
    }

    /// Where the diagnostic image of corner `c` of the tile of kind `kind`
    /// of input direction `d` stands in the list of diagnostic images.
    pub open spec fn spec_debug_place(&self, d: int, kind: int, c: int) -> int {
        (d * self.output_type.spec_corners_used().len() + kind) * 4 + c
    }

    /// The place in the row of the atlas of the tile of kind `kind` of
    /// input direction `d`.
    pub open spec fn spec_corner_index(&self, d: int, kind: int) -> int {
        BitmaskSlice::tile_index(
            d,
            self.spec_tiles_per_direction() as int,
            self.spec_corner_column(kind),
        )
    }

    /// The diagnostic image of the whole library as it stands before
    /// corner `c` of the tile of kind `kind` of input direction `d` is put
    /// in: a transparent canvas with the first frame of each corner before
    /// that one, going by direction, kind and corner, at the place of the
    /// corner in the first row of the atlas.
    pub open spec fn spec_debug_canvas(&self, corners: CornerPayload, d: int, kind: int, c: int) -> RasterView
        decreases d, kind, c,
    {
        if d < 0 || kind < 0 || c < 0 {
            RasterView::blank(0, 0)
        } else if c > 0 {
            let sides = Corner::spec_all()[c - 1].spec_sides_of_corner();
            self.spec_debug_canvas(corners, d, kind, c - 1).replaced(
                corners@[d]@[kind]@[c - 1]@[0]@,
                (self.spec_corner_index(d, kind) * self.icon_size.x + self.spec_get_side_info(
                    sides.0,
                ).start) as nat,
                self.spec_get_side_info(sides.1).start as nat,
            )
        } else if kind > 0 {
            self.spec_debug_canvas(corners, d, kind - 1, 4)
        } else if d > 0 {
            self.spec_debug_canvas(
                corners,
                d - 1,
                self.output_type.spec_corners_used().len() as int,
                0,
            )
        } else {
            RasterView::blank(
                (self.spec_direction_count() * corners@.len() * self.icon_size.x) as nat,
                self.icon_size.y as nat,
            )
        }
    }

    /// Whether `entry` is a diagnostic image with the given hints.
    pub open spec fn spec_is_debug_entry(
        entry: NamedIcon,
        path: Seq<char>,
        name: Seq<char>,
        image: RasterView,
    ) -> bool {
        &&& entry.path_hint matches Some(path_hint) && path_hint@ == path
        &&& entry.name_hint matches Some(name_hint) && name_hint@ == name
        &&& entry.image matches OutputImage::Png(raster) && raster@ == image
    }

    /// What the diagnostic images ask for: a library with at least one
    /// frame, a configuration that the atlas can be cut by, and a canvas
    /// for all corners that is no larger than the largest allocation.
    pub open spec fn spec_can_debug(&self, corners: CornerPayload, num_frames: int) -> bool {
        &&& self.spec_can_cut()
        &&& num_frames > 0
        &&& corners@.len() == self.spec_direction_count()
        &&& forall|d: int|
            0 <= d < corners@.len() ==> self.spec_direction_shape(
                #[trigger] corners@[d],
                num_frames,
            )
        &&& self.spec_direction_count() * corners@.len() * self.icon_size.x <= u32::MAX
        &&& 4 * (self.spec_direction_count() * corners@.len() * self.icon_size.x)
            * self.icon_size.y <= isize::MAX
    }

    /// Whether `list` holds the diagnostic images of a library: the first
    /// frame of each corner, going by input direction, kind of corner and
    /// corner, and after them one image that holds them all, each at its
    /// place in the first row of the atlas.
    pub open spec fn spec_is_debug_list(&self, list: Seq<NamedIcon>, corners: CornerPayload) -> bool {
        &&& list.len() == self.spec_debug_place(self.spec_direction_count() as int, 0, 0) + 1
        &&& forall|d: int, kind: int, c: int|
            0 <= d < self.spec_direction_count() && 0 <= kind
                < self.output_type.spec_corners_used().len() && 0 <= c < 4
                ==> BitmaskSlice::spec_is_debug_entry(
                #[trigger] list[self.spec_debug_place(d, kind, c)],
                "DEBUGOUT/CORNERS/"@,
                BitmaskSlice::spec_debug_name(
                    d,
                    self.direction_strategy.spec_input_vec()[d],
                    self.spec_corner_index(d, kind),
                    self.output_type.spec_corners_used()[kind],
                    Corner::spec_all()[c],
                ),
                corners@[d]@[kind]@[c]@[0]@,
            )
        &&& BitmaskSlice::spec_is_debug_entry(
            list[list.len() - 1],
            "DEBUGOUT"@,
            "ASSEMBLED-CORNERS"@,
            self.spec_debug_canvas(corners, self.spec_direction_count() as int, 0, 0),
        )
    }

    /// The diagnostic images of a library: the first frame of each corner,
    /// going by input direction, kind of corner and corner, and after them
    /// one image that holds them all, each at its place in the first row
    /// of the atlas.
    #[verifier::rlimit(40)]
    pub fn generate_debug_icons(&self, corners: &CornerPayload) -> (r: Vec<NamedIcon>)
        requires
            exists|num_frames: int| self.spec_can_debug(*corners, num_frames),
        ensures
            self.spec_is_debug_list(r@, *corners),
    {
        let ghost num_frames = choose|num_frames: int| self.spec_can_debug(*corners, num_frames);
        let mut out: Vec<NamedIcon> = Vec::new();
        let directions = self.direction_strategy.input_vec();
        let direction_positions = self.direction_strategy.input_positions();
        let corner_types = self.output_type.corners_used();
        let all_corners = Corner::all();
        let used: usize = corner_types.len();
        let direction_count: u32 = directions.len() as u32;
        proof {
            lemma_canvas_width(
                direction_count as int,
                corners@.len() as int,
                self.icon_size.x as int,
            );
        }
        let canvas_width: u32 = direction_count * (corners.len() as u32) * self.icon_size.x;
        let mut corners_image = Raster::blank(canvas_width, self.icon_size.y);
        let prefab_count: u32 = match &self.prefabs {
            Some(prefabs) => prefabs.count() as u32,
            None => 0,
        };
        let position_count: u32 = self.positions.count() as u32;
        let mut d: usize = 0;
        while d < directions.len()
            invariant
                d <= directions@.len(),
                directions@ == self.direction_strategy.spec_input_vec(),
                directions@.len() == self.spec_direction_count(),
                1 <= directions@.len() <= 8,
                direction_positions@.len() == directions@.len(),
                forall|i: int|
                    0 <= i < directions@.len() ==> (#[trigger] direction_positions@[i]).1 == i,
                corner_types@ == self.output_type.spec_corners_used(),
                forall|i: int|
                    0 <= i < corner_types@.len() ==> (#[trigger] corner_types@[i]).spec_ordinal()
                        == i,
                used == corner_types@.len(),
                4 <= used <= 13,
                all_corners@ == Corner::spec_all(),
                self.spec_can_debug(*corners, num_frames),
                position_count == self.positions.spec_count(),
                prefab_count == self.spec_prefab_count(),
                out@.len() == self.spec_debug_place(d as int, 0, 0),
                forall|dd: int, kind: int, c: int|
                    0 <= dd < d && 0 <= kind < used && 0 <= c < 4
                        ==> BitmaskSlice::spec_is_debug_entry(
                        #[trigger] out@[self.spec_debug_place(dd, kind, c)],
                        "DEBUGOUT/CORNERS/"@,
                        BitmaskSlice::spec_debug_name(
                            dd,
                            directions@[dd],
                            self.spec_corner_index(dd, kind),
                            corner_types@[kind],
                            Corner::spec_all()[c],
                        ),
                        corners@[dd]@[kind]@[c]@[0]@,
                    ),
                corners_image@ == self.spec_debug_canvas(*corners, d as int, 0, 0),
            decreases directions@.len() - d,
        {
            let direction = directions[d];
            let corner_map = &corners[d];
            let dir_index: u32 = direction_positions[d].1;
            assert(self.spec_direction_shape(*corner_map, num_frames));
            let mut kind: usize = 0;
            while kind < used
                invariant
                    kind <= used,
                    d < directions@.len(),
                    direction == directions@[d as int],
                    dir_index == d,
                    *corner_map == corners@[d as int],
                    self.spec_direction_shape(*corner_map, num_frames),
                    directions@ == self.direction_strategy.spec_input_vec(),
                    directions@.len() == self.spec_direction_count(),
                    1 <= directions@.len() <= 8,
                    corner_types@ == self.output_type.spec_corners_used(),
                    forall|i: int|
                        0 <= i < corner_types@.len() ==> (
                        #[trigger] corner_types@[i]).spec_ordinal() == i,
                    used == corner_types@.len(),
                    4 <= used <= 13,
                    all_corners@ == Corner::spec_all(),
                    self.spec_can_debug(*corners, num_frames),
                    position_count == self.positions.spec_count(),
                    prefab_count == self.spec_prefab_count(),
                    out@.len() == self.spec_debug_place(d as int, kind as int, 0),
                    forall|dd: int, kk: int, c: int|
                        (0 <= dd < d && 0 <= kk < used || dd == d && 0 <= kk < kind) && 0 <= c
                            < 4 ==> BitmaskSlice::spec_is_debug_entry(
                            #[trigger] out@[self.spec_debug_place(dd, kk, c)],
                            "DEBUGOUT/CORNERS/"@,
                            BitmaskSlice::spec_debug_name(
                                dd,
                                directions@[dd],
                                self.spec_corner_index(dd, kk),
                                corner_types@[kk],
                                Corner::spec_all()[c],
                            ),
                            corners@[dd]@[kk]@[c]@[0]@,
                        ),
                    corners_image@ == self.spec_debug_canvas(*corners, d as int, kind as int, 0),
                decreases used - kind,
            {
                let corner_type = corner_types[kind];
                assert(corner_type.spec_ordinal() == kind);
                assert(self.positions@[kind as int] is Some);
                let position: u32 = self.positions.get(corner_type).unwrap();
                proof {
                    assert(self.spec_column_fits(
                        self.spec_corner_column(kind as int),
                        self.cut_pos.x as int,
                    ));
                    lemma_column_fits(
                        d as int,
                        directions@.len() as int,
                        self.spec_tiles_per_direction() as int,
                        position as int,
                        self.icon_size.x as int,
                        self.cut_pos.x as int,
                    );
                }
                let input_index: u32 = dir_index * (position_count + prefab_count) + position;
                let map = &corner_map[kind];
                assert(BitmaskSlice::spec_tile_shape(*map, num_frames));
                let mut c: usize = 0;
                while c < 4
                    invariant
                        c <= 4,
                        kind < used,
                        d < directions@.len(),
                        dir_index == d,
                        direction == directions@[d as int],
                        corner_type == corner_types@[kind as int],
                        *map == corners@[d as int]@[kind as int],
                        BitmaskSlice::spec_tile_shape(*map, num_frames),
                        num_frames > 0,
                        input_index == self.spec_corner_index(d as int, kind as int),
                        input_index * self.icon_size.x + self.cut_pos.x <= u32::MAX,
                        0 <= input_index * self.icon_size.x,
                        self.spec_cut_inside(),
                        directions@.len() == self.spec_direction_count(),
                        corner_types@ == self.output_type.spec_corners_used(),
                        used == corner_types@.len(),
                        4 <= used <= 13,
                        all_corners@ == Corner::spec_all(),
                        out@.len() == self.spec_debug_place(d as int, kind as int, c as int),
                        forall|dd: int, kk: int, cc: int|
                            ((0 <= dd < d && 0 <= kk < used || dd == d && 0 <= kk < kind) && 0
                                <= cc < 4) || (dd == d && kk == kind && 0 <= cc < c)
                                ==> BitmaskSlice::spec_is_debug_entry(
                                #[trigger] out@[self.spec_debug_place(dd, kk, cc)],
                                "DEBUGOUT/CORNERS/"@,
                                BitmaskSlice::spec_debug_name(
                                    dd,
                                    directions@[dd],
                                    self.spec_corner_index(dd, kk),
                                    corner_types@[kk],
                                    Corner::spec_all()[cc],
                                ),
                                corners@[dd]@[kk]@[cc]@[0]@,
                            ),
                        corners_image@ == self.spec_debug_canvas(
                            *corners,
                            d as int,
                            kind as int,
                            c as int,
                        ),
                    decreases 4 - c,
                {
                    let corner = all_corners[c];
                    let vec = &map[c];
                    let frame = &vec[0];
                    let name = debug_name(dir_index, direction, input_index, corner_type, corner);
                    let ghost old_out = out@;
                    out.push(
                        NamedIcon::new(
                            "DEBUGOUT/CORNERS/",
                            name.as_str(),
                            OutputImage::Png(frame.clone()),
                        ),
                    );
                    proof {
                        let used_int = used as int;
                        assert forall|dd: int, kk: int, cc: int|
                            ((0 <= dd < d && 0 <= kk < used || dd == d && 0 <= kk < kind) && 0
                                <= cc < 4) || (dd == d && kk == kind && 0 <= cc
                                < c) implies self.spec_debug_place(dd, kk, cc)
                            < old_out.len() by {
                            lemma_place_order(
                                used_int,
                                dd,
                                kk,
                                cc,
                                d as int,
                                kind as int,
                                c as int,
                            );
                        }
                    }
                    let (horizontal, vertical) = corner.sides_of_corner();
                    let horizontal = self.get_side_info(horizontal);
                    let vertical = self.get_side_info(vertical);
                    corners_image.replace(
                        frame,
                        input_index * self.icon_size.x + horizontal.start,
                        vertical.start,
                    );
                    c += 1;
                }
                kind += 1;
            }
            proof {
                let used_int = used as int;
                assert((d + 1) * used_int == d * used_int + used_int) by (nonlinear_arith);
            }
            d += 1;
        }
        out.push(NamedIcon::new("DEBUGOUT", "ASSEMBLED-CORNERS", OutputImage::Png(corners_image)));
        proof {
            let used_int = used as int;
            assert forall|dd: int, kk: int, cc: int|
                0 <= dd < d && 0 <= kk < used && 0 <= cc < 4 implies self.spec_debug_place(
                dd,
                kk,
                cc,
            ) < out@.len() - 1 by {
                lemma_place_order(used_int, dd, kk, cc, d as int, 0, 0);
            }
        }
        out
    }

    /// What the diagnostic images of an atlas ask for, beyond what cutting
    /// asks for: at least one frame, and a canvas for all corners that is
    /// no larger than the largest allocation.
    pub open spec fn spec_debug_fits(&self, atlas: RasterView) -> bool {
        &&& self.spec_num_frames(atlas) > 0
        &&& self.spec_direction_count() * self.spec_direction_count() * self.icon_size.x
            <= u32::MAX
        &&& 4 * (self.spec_direction_count() * self.spec_direction_count() * self.icon_size.x)
            * self.icon_size.y <= isize::MAX
    }

    /// Whether a payload holds the icon `wanted` as the cutters hand it
    /// back: in standard mode the icon alone; in debug mode the diagnostic
    /// images of the corners of the atlas, and after them the icon.
    pub open spec fn spec_is_payload_of(
        &self,
        payload: ProcessorPayload,
        atlas: RasterView,
        mode: OperationMode,
        wanted: IconView,
    ) -> bool {
        match mode {
            OperationMode::Standard => {
                &&& payload matches ProcessorPayload::Single(image)
                &&& *image matches OutputImage::Dmi(icon)
                &&& icon@ == wanted
            },
            OperationMode::Debug => {
                &&& payload matches ProcessorPayload::MultipleNamed(list)
                &&& list@.len() > 0
                &&& exists|corners: CornerPayload|
                    self.spec_is_corner_library(corners, atlas) && self.spec_is_debug_list(
                        list@.drop_last(),
                        corners,
                    )
                &&& list@.last().path_hint is None
                &&& list@.last().name_hint is None
                &&& list@.last().image matches OutputImage::Dmi(icon)
                &&& icon@ == wanted
            },
        }
    }

    /// Whether a payload is what cutting an atlas hands back.
    pub open spec fn spec_is_cut_payload(
        &self,
        payload: ProcessorPayload,
        atlas: RasterView,
        mode: OperationMode,
    ) -> bool {
        self.spec_is_payload_of(payload, atlas, mode, self.spec_cut_icon(atlas))
    }

    /// Hands an icon back as the mode asks for it: alone, or behind the
    /// diagnostic images of the corners it was made from.
    pub fn wrap_output(
        &self,
        img: &Raster,
        corners: &CornerPayload,
        output_icon: Icon,
        mode: OperationMode,
    ) -> (r: ProcessorPayload)
        requires
            self.spec_is_corner_library(*corners, img@),
            mode == OperationMode::Debug ==> self.spec_can_debug(
                *corners,
                self.spec_num_frames(img@),
            ),
        ensures
            self.spec_is_payload_of(r, img@, mode, output_icon@),
    {
        match mode {
            OperationMode::Debug => {
                let mut out = self.generate_debug_icons(corners);
                let ghost debug_list = out@;
                out.push(NamedIcon::from_icon(output_icon));
                assert(out@.drop_last() =~= debug_list);
                ProcessorPayload::MultipleNamed(out)
            },
            OperationMode::Standard => ProcessorPayload::from_icon(output_icon),
        }
    }

    /// Whether `frames` holds the output tile of an adjacency for each
    /// frame of input direction `d` of an atlas.
    pub open spec fn spec_is_tile_of(
        &self,
        frames: Vec<Raster>,
        atlas: RasterView,
        d: int,
        adjacency: Adjacency,
    ) -> bool {
        &&& frames@.len() == self.spec_num_frames(atlas)
        &&& forall|f: int|
            0 <= f < frames@.len() ==> (#[trigger] frames@[f])@ == self.spec_composed(
                atlas,
                d,
                adjacency,
                f,
            )
    }

    /// Whether `direction` holds the output tiles of input direction `d` of
    /// an atlas, for each adjacency that gets composed.
    pub open spec fn spec_is_direction_of(
        &self,
        direction: Vec<Vec<Raster>>,
        atlas: RasterView,
        d: int,
    ) -> bool {
        &&& direction@.len() == self.output_type.spec_output_adjacencies().len()
        &&& forall|a: int|
            0 <= a < direction@.len() ==> self.spec_is_tile_of(
                #[trigger] direction@[a],
                atlas,
                d,
                self.output_type.spec_output_adjacencies()[a],
            )
    }

    /// Whether `assembled` holds the output tiles of an atlas, for each
    /// input direction.
    pub open spec fn spec_is_assembled(&self, assembled: Vec<Vec<Vec<Raster>>>, atlas: RasterView) -> bool {
        &&& assembled@.len() == self.spec_direction_count()
        &&& forall|d: int|
            0 <= d < assembled@.len() ==> self.spec_is_direction_of(
                #[trigger] assembled@[d],
                atlas,
                d,
            )
    }

    /// Composes the output tiles of every adjacency that gets composed from
    /// what was cut out of an atlas.
    pub fn assemble_tiles(&self, img: &Raster, corners: &CornerPayload, prefabs: &PrefabPayload) -> (r:
        Vec<Vec<Vec<Raster>>>)
        requires
            self.spec_can_cut(),
            4 * self.output_icon_size.x * self.output_icon_size.y <= isize::MAX,
            self.spec_is_corner_library(*corners, img@),
            self.spec_is_prefab_library(*prefabs, img@),
        ensures
            self.spec_is_assembled(r, img@),
    {
        proof {
            use_type_invariant(img);
        }
        let num_frames: u32 = img.height() / self.icon_size.y;
        let possible_adjacencies = self.output_type.output_adjacencies();
        proof {
            self.lemma_library_shapes(*corners, *prefabs, img@);
            assert forall|a: int| 0 <= a < possible_adjacencies@.len() implies self.spec_can_compose(
                #[trigger] possible_adjacencies@[a],
            ) by {
                self.lemma_can_compose(a);
            }
        }
        let assembled = self.generate_icons(corners, prefabs, num_frames, &possible_adjacencies);
        proof {
            assert forall|d: int| 0 <= d < assembled@.len() implies self.spec_is_direction_of(
                #[trigger] assembled@[d],
                img@,
                d,
            ) by {
                assert(self.spec_is_direction_icons(
                    assembled@[d],
                    *corners,
                    *prefabs,
                    d,
                    possible_adjacencies@,
                    num_frames as int,
                ));
                assert forall|a: int| 0 <= a < assembled@[d]@.len() implies self.spec_is_tile_of(
                    #[trigger] assembled@[d]@[a],
                    img@,
                    d,
                    possible_adjacencies@[a],
                ) by {
                    let frames = assembled@[d]@[a];
                    assert(self.spec_is_composed_frames(
                        frames,
                        *corners,
                        *prefabs,
                        d,
                        possible_adjacencies@[a],
                        num_frames as int,
                    ));
                    assert forall|f: int| 0 <= f < frames@.len() implies (#[trigger] frames@[f])@
                        == self.spec_composed(img@, d, possible_adjacencies@[a], f) by {
                        self.lemma_composed(
                            *corners,
                            *prefabs,
                            img@,
                            d,
                            possible_adjacencies@[a],
                            f,
                        );
                    }
                }
            }
        }
        assembled
    }

    /// Cuts an atlas into an icon with a state for each adjacency. An input
    /// that is no raster image is refused, and so is an atlas of another
    /// width than the configuration asks for.
    pub fn perform_operation(&self, input: &InputIcon, mode: OperationMode) -> (r: Result<
        ProcessorPayload,
        ProcessorError,
    >)
        requires
            input matches InputIcon::DynamicImage(img) ==> {
                &&& self.spec_expected_width() <= u32::MAX
                &&& img@.width == self.spec_expected_width() ==> {
                    &&& self.spec_valid_for(img@)
                    &&& mode == OperationMode::Debug ==> self.spec_debug_fits(img@)
                }
            },
        ensures
            match input {
                InputIcon::Dmi(_) => r == Err::<ProcessorPayload, ProcessorError>(
                    ProcessorError::ImageNotFound,
                ),
                InputIcon::DynamicImage(img) => match self.spec_check_width(img@.width as u32) {
                    Err(error) => r == Err::<ProcessorPayload, ProcessorError>(error),
                    Ok(_) => r matches Ok(payload) && self.spec_is_cut_payload(
                        payload,
                        img@,
                        mode,
                    ),
                },
            },
    {
        let img = match input {
            InputIcon::DynamicImage(img) => img,
            _ => {
                return Err(ProcessorError::ImageNotFound);
            },
        };
        match self.check_width(img.width()) {
            Err(error) => {
                return Err(error);
            },
            Ok(_) => {},
        }
        let (corners, prefabs) = self.generate_corners(img).unwrap();
        let output_icon = self.assemble_icon(img, &corners, &prefabs);
        proof {
            self.lemma_library_shapes(corners, prefabs, img@);
        }
        Ok(self.wrap_output(img, &corners, output_icon, mode))
    }

    /// Checks the configuration. There is nothing that it checks yet.
    pub fn verify_config(&self) -> (r: Result<(), ProcessorError>)
        ensures
            r is Ok,
    {
        Ok(())
    }

    /// The adjacencies, among the first `count` that get composed, that
    /// have no orphaned corner, in their order.
    pub open spec fn spec_stated_upto(&self, count: nat) -> Seq<Adjacency>
        decreases count,
    {
        if count == 0 {
            Seq::empty()
        } else {
            let before = self.spec_stated_upto((count - 1) as nat);
            let adjacency = self.output_type.spec_output_adjacencies()[count - 1];
            if adjacency.spec_has_no_orphaned_corner() {
                before.push(adjacency)
            } else {
                before
            }
        }
    }

    /// The adjacencies that get an icon state, in the order of their
    /// states.
    pub open spec fn spec_stated(&self) -> Seq<Adjacency> {
        self.spec_stated_upto(self.output_type.spec_output_adjacencies().len())
    }

    /// The icon states of the first `count` adjacencies that get composed
    /// are, one for one and in order, the states of those of them that
    /// have no orphaned corner; each of these stands among them as often
    /// as among the first `count` that get composed.
    pub proof fn lemma_states_follow(&self, atlas: RasterView, count: nat)
        requires
            count <= self.output_type.spec_output_adjacencies().len(),
        ensures
            self.spec_states_upto(atlas, count).len() == self.spec_stated_upto(count).len(),
            self.spec_stated_upto(count).len() == CornerSet::free_count(
                self.output_type.spec_output_adjacencies().take(count as int),
            ),
            forall|i: int|
                0 <= i < self.spec_stated_upto(count).len() ==> {
                    let adjacency = #[trigger] self.spec_stated_upto(count)[i];
                    &&& self.spec_states_upto(atlas, count)[i] == self.spec_state(
                        atlas,
                        adjacency,
                    )
                    &&& self.output_type.spec_emits(adjacency)
                    &&& adjacency.spec_has_no_orphaned_corner()
                    &&& CornerSet::count_of(self.spec_stated_upto(count), adjacency)
                        == CornerSet::count_of(
                        self.output_type.spec_output_adjacencies().take(count as int),
                        adjacency,
                    )
                },
        decreases count,
    {
        let list = self.output_type.spec_output_adjacencies();
        if count > 0 {
            self.lemma_states_follow(atlas, (count - 1) as nat);
            self.output_type.lemma_output_adjacencies_emitted(count - 1);
            let here = list[count - 1];
            let before = self.spec_stated_upto((count - 1) as nat);
            let after = self.spec_stated_upto(count);
            assert(list.take(count as int).drop_last() =~= list.take(count - 1));
            assert(list.take(count as int).last() == here);
            assert forall|i: int| 0 <= i < after.len() implies {
                let adjacency = #[trigger] after[i];
                &&& self.spec_states_upto(atlas, count)[i] == self.spec_state(atlas, adjacency)
                &&& self.output_type.spec_emits(adjacency)
                &&& adjacency.spec_has_no_orphaned_corner()
                &&& CornerSet::count_of(after, adjacency) == CornerSet::count_of(
                    list.take(count as int),
                    adjacency,
                )
            } by {
                let adjacency = after[i];
                if here.spec_has_no_orphaned_corner() {
                    assert(after.drop_last() =~= before);
                }
                if i < before.len() {
                    assert(before[i] == adjacency);
                } else {
                    self.lemma_stated_count(adjacency, (count - 1) as nat);
                }
            }
        } else {
            assert(list.take(0) =~= Seq::<Adjacency>::empty());
        }
    }

    /// An adjacency without orphaned corner stands among the adjacencies
    /// that get a state as often as among those that get composed.
    proof fn lemma_stated_count(&self, adjacency: Adjacency, count: nat)
        requires
            count <= self.output_type.spec_output_adjacencies().len(),
            adjacency.spec_has_no_orphaned_corner(),
        ensures
            CornerSet::count_of(self.spec_stated_upto(count), adjacency) == CornerSet::count_of(
                self.output_type.spec_output_adjacencies().take(count as int),
                adjacency,
            ),
        decreases count,
    {
        let list = self.output_type.spec_output_adjacencies();
        if count > 0 {
            self.lemma_stated_count(adjacency, (count - 1) as nat);
            let here = list[count - 1];
            let before = self.spec_stated_upto((count - 1) as nat);
            assert(list.take(count as int).drop_last() =~= list.take(count - 1));
            assert(list.take(count as int).last() == here);
            if here.spec_has_no_orphaned_corner() {
                assert(before.push(here).drop_last() =~= before);
            }
        } else {
            assert(list.take(0) =~= Seq::<Adjacency>::empty());
        }
    }

    /// Without a map icon, the icon that is cut out of an atlas holds the
    /// states of the composed adjacencies without orphaned corner, one for
    /// one and in their order, and no other state: 16 states for the
    /// cardinal set, 47 for the standard diagonal set and 55 for the corner
    /// diagonal set. No two of them have the same name.
    pub proof fn lemma_states_of_icon(&self, atlas: RasterView)
        requires
            self.map_icon is None,
        ensures
            self.spec_cut_icon(atlas).states.len() == self.spec_stated().len(),
            self.spec_cut_icon(atlas).states.len() == match self.output_type {
                CornerSet::Cardinal => 16nat,
                CornerSet::StandardDiagonal => 47nat,
                CornerSet::CornerDiagonal => 55nat,
            },
            forall|i: int|
                0 <= i < self.spec_stated().len() ==> #[trigger] self.spec_cut_icon(
                    atlas,
                ).states[i] == self.spec_state(atlas, self.spec_stated()[i]),
            forall|i: int, j: int|
                0 <= i < j < self.spec_stated().len() ==> (#[trigger] self.spec_cut_icon(
                    atlas,
                ).states[i]).name != (#[trigger] self.spec_cut_icon(atlas).states[j]).name,
    {
        let list = self.output_type.spec_output_adjacencies();
        let stated = self.spec_stated();
        let states = self.spec_cut_icon(atlas).states;
        self.lemma_states_follow(atlas, list.len());
        self.output_type.lemma_free_count();
        assert(list.take(list.len() as int) =~= list);
        assert(states =~= self.spec_states_upto(atlas, list.len()));
        assert forall|i: int, j: int| 0 <= i < j < stated.len() implies (#[trigger] states[i]).name
            != (#[trigger] states[j]).name by {
            let first = stated[i];
            let second = stated[j];
            if states[i].name == states[j].name {
                self.lemma_state_names_differ(first, second);
                CornerSet::lemma_count_of_two(stated, i, j);
                self.output_type.lemma_listed_once(first);
            }
        }
    }

    /// Two adjacencies that get composed and whose icon states have the
    /// same name are the same adjacency.
    pub proof fn lemma_state_names_differ(&self, a: Adjacency, b: Adjacency)
        requires
            self.output_type.spec_emits(a),
            self.output_type.spec_emits(b),
            self.spec_state_name(a) == self.spec_state_name(b),
        ensures
            a == b,
    {
        let text_a = a.spec_pretty_print();
        let text_b = b.spec_pretty_print();
        match self.output_name {
            Some(prefix) => {
                let start = prefix@ + seq!['-'];
                assert(text_a =~= (start + text_a).skip(start.len() as int));
                assert(text_b =~= (start + text_b).skip(start.len() as int));
            },
            None => {},
        }
        Adjacency::lemma_pretty_print_injective(a, b);
        self.output_type.lemma_emitted_same(a, b);
    }

    /// Among the icon states of the first `count` adjacencies that get
    /// composed, as many have the name of the state of an adjacency
    /// without orphaned corner as that adjacency stands among the first
    /// `count`.
    proof fn lemma_states_named(&self, atlas: RasterView, adjacency: Adjacency, count: nat)
        requires
            count <= self.output_type.spec_output_adjacencies().len(),
            self.output_type.spec_emits(adjacency),
            adjacency.spec_has_no_orphaned_corner(),
        ensures
            named_count(self.spec_states_upto(atlas, count), self.spec_state_name(adjacency))
                == CornerSet::count_of(
                self.output_type.spec_output_adjacencies().take(count as int),
                adjacency,
            ),
        decreases count,
    {
        let list = self.output_type.spec_output_adjacencies();
        if count > 0 {
            self.lemma_states_named(atlas, adjacency, (count - 1) as nat);
            let here = list[count - 1];
            self.output_type.lemma_output_adjacencies_emitted(count - 1);
            assert(list.take(count as int).drop_last() =~= list.take(count - 1));
            assert(list.take(count as int).last() == here);
            let before = self.spec_states_upto(atlas, (count - 1) as nat);
            if here.spec_has_no_orphaned_corner() {
                assert(before.push(self.spec_state(atlas, here)).drop_last() =~= before);
                if self.spec_state_name(here) == self.spec_state_name(adjacency) {
                    self.lemma_state_names_differ(here, adjacency);
                }
            } else {
                assert(here != adjacency);
            }
        }
    }

    /// The icon that is cut out of an atlas holds exactly one state with
    /// the name of the state of each adjacency that gets composed and has
    /// no orphaned corner, wherever the map icon does not carry that name.
    pub proof fn lemma_one_state_per_adjacency(&self, atlas: RasterView, adjacency: Adjacency)
        requires
            self.output_type.spec_emits(adjacency),
            adjacency.spec_has_no_orphaned_corner(),
            self.map_icon matches Some(map_icon) ==> map_icon.icon_state_name@
                != self.spec_state_name(adjacency),
        ensures
            named_count(self.spec_cut_icon(atlas).states, self.spec_state_name(adjacency)) == 1,
    {
        let list = self.output_type.spec_output_adjacencies();
        let name = self.spec_state_name(adjacency);
        self.lemma_states_named(atlas, adjacency, list.len());
        assert(list.take(list.len() as int) =~= list);
        self.output_type.lemma_listed_once(adjacency);
        let cut = self.spec_states_upto(atlas, list.len());
        let extra = self.spec_map_icon_states();
        lemma_named_count_add(cut, extra, name);
        assert(named_count(Seq::<IconStateView>::empty(), name) == 0);
        if extra.len() > 0 {
            assert(extra.drop_last() =~= Seq::<IconStateView>::empty());
            assert(extra.last().name != name);
        }
        assert(named_count(extra, name) == 0);
    }

    /// The width of an atlas is the expected width exactly where the check
    /// of the width passes. Where it does not pass, the error says that
    /// the atlas is one tile per direction off exactly where the widths
    /// differ by one tile for each direction; if they do not, it says that
    /// the atlas holds another number of directions exactly where its
    /// width is a multiple of the width of the tiles of one direction; and
    /// it says only that the width is wrong in every other case.
    pub proof fn lemma_width_errors(&self, actual_width: u32)
        ensures
            self.spec_check_width(actual_width) is Ok <==> actual_width
                == self.spec_expected_width(),
            self.spec_check_width(actual_width) matches Err(error) ==> {
                let expected = self.spec_expected_width();
                let per_direction = self.spec_tiles_per_direction() * self.icon_size.x;
                let off_by_one = expected - actual_width == self.spec_direction_count()
                    * self.icon_size.x || actual_width - expected == self.spec_direction_count()
                    * self.icon_size.x;
                let multiple = per_direction > 0 && actual_width as int % per_direction == 0;
                &&& error is ImageWidthOffByOne <==> off_by_one
                &&& error is ImageWidthOffByDirection <==> !off_by_one && multiple
                &&& error is ImproperImageWidth <==> !off_by_one && !multiple
            },
    {
        let directions = self.spec_direction_count() as int;
        let width = self.icon_size.x as int;
        assert(directions * width >= 0) by (nonlinear_arith)
            requires
                directions >= 0,
                width >= 0,
        ;
    }

    /// The width that the atlas must have, if 32 bits can hold it.
    pub fn expected_width(&self) -> (r: Option<u32>)
        ensures
            r is Some <==> self.spec_expected_width() <= u32::MAX,
            r matches Some(width) ==> width == self.spec_expected_width(),
    {
        let position_count: usize = self.positions.count();
        let direction_count: usize = self.direction_strategy.input_vec().len();
        let prefab_count: usize = match &self.prefabs {
            Some(prefabs) => prefabs.count(),
            None => 0,
        };
        let tiles: u128 = position_count as u128 + prefab_count as u128;
        assert(0 <= direction_count * tiles <= 8 * tiles) by (nonlinear_arith)
            requires
                0 <= direction_count <= 8,
                0 <= tiles,
        ;
        let all_tiles: u128 = (direction_count as u128) * tiles;
        assert(0 <= all_tiles * self.icon_size.x <= all_tiles * 0xffff_ffff) by (nonlinear_arith)
            requires
                0 <= all_tiles,
                0 <= self.icon_size.x <= 0xffff_ffff,
        ;
        let width: u128 = all_tiles * (self.icon_size.x as u128);
        if width <= u32::MAX as u128 {
            Some(width as u32)
        } else {
            None
        }
    }

    /// Whether the tile in a column can be cut for every direction.
    fn column_fits(&self, column: u32, margin: u32) -> (r: bool)
        requires
            self.spec_tiles_per_direction() <= u32::MAX,
        ensures
            r == self.spec_column_fits(column as int, margin as int),
    {
        let position_count: usize = self.positions.count();
        let direction_count: usize = self.direction_strategy.input_vec().len();
        let prefab_count: usize = match &self.prefabs {
            Some(prefabs) => prefabs.count(),
            None => 0,
        };
        let tiles: u128 = position_count as u128 + prefab_count as u128;
        assert(0 <= (direction_count - 1) * tiles <= 7 * tiles) by (nonlinear_arith)
            requires
                1 <= direction_count <= 8,
                0 <= tiles,
        ;
        let last: u128 = ((direction_count - 1) as u128) * tiles + column as u128;
        assert(0 <= last * self.icon_size.x <= last * 0xffff_ffff) by (nonlinear_arith)
            requires
                0 <= last,
                0 <= self.icon_size.x <= 0xffff_ffff,
        ;
        last <= u32::MAX as u128 && last * (self.icon_size.x as u128) + margin as u128
            <= u32::MAX as u128
    }

    /// Whether the atlas can be cut by this configuration.
    #[verifier::rlimit(40)]
    pub fn can_cut(&self) -> (r: bool)
        ensures
            r == self.spec_can_cut(),
    {
        if self.icon_size.y == 0 || self.cut_pos.x > self.icon_size.x || self.cut_pos.y
            > self.icon_size.y {
            return false;
        }
        let position_count: usize = self.positions.count();
        let prefab_count: usize = match &self.prefabs {
            Some(prefabs) => prefabs.count(),
            None => 0,
        };
        if position_count as u128 + prefab_count as u128 > u32::MAX as u128 {
            return false;
        }
        let corner_types = self.output_type.corners_used();
        let mut kind: usize = 0;
        while kind < corner_types.len()
            invariant
                kind <= corner_types@.len(),
                corner_types@ == self.output_type.spec_corners_used(),
                forall|i: int|
                    0 <= i < corner_types@.len() ==> (#[trigger] corner_types@[i]).spec_ordinal()
                        == i,
                self.spec_tiles_per_direction() <= u32::MAX,
                forall|k: int|
                    0 <= k < kind ==> (#[trigger] self.positions@[k]) is Some
                        && self.spec_column_fits(
                        self.spec_corner_column(k),
                        self.cut_pos.x as int,
                    ),
            decreases corner_types@.len() - kind,
        {
            assert(corner_types@[kind as int].spec_ordinal() == kind);
            match self.positions.get(corner_types[kind]) {
                Some(column) => {
                    if !self.column_fits(column, self.cut_pos.x) {
                        assert(!self.spec_column_fits(
                            self.spec_corner_column(kind as int),
                            self.cut_pos.x as int,
                        ));
                        assert(self.positions@[kind as int] is Some);
                        return false;
                    }
                },
                None => {
                    assert(self.positions@[kind as int] is None);
                    return false;
                },
            }
            kind += 1;
        }
        match &self.prefabs {
            Some(prefabs) => {
                let entries = prefabs.entries();
                let mut entry: usize = 0;
                while entry < entries.len()
                    invariant
                        entry <= entries@.len(),
                        self.prefabs is Some,
                        entries@ == self.prefabs.unwrap()@,
                        self.spec_tiles_per_direction() <= u32::MAX,
                        forall|k: int|
                            0 <= k < entry ==> self.spec_column_fits(
                                #[trigger] self.spec_prefab_column(k),
                                0,
                            ),
                    decreases entries@.len() - entry,
                {
                    if !self.column_fits(entries[entry].1, 0) {
                        assert(!self.spec_column_fits(self.spec_prefab_column(entry as int), 0));
                        return false;
                    }
                    entry += 1;
                }
            },
            None => {},
        }
        true
    }

    /// Whether the delays of an icon state of `num_frames` frames together
    /// can be held in 32 bits.
    fn delays_fit(&self, num_frames: u32) -> (r: bool)
        ensures
            r == (self.spec_delay(num_frames as int) matches Some(delays) ==> delays_total(delays)
                <= u32::MAX),
    {
        let delays = match &self.animation {
            Some(animation) => &animation.delays,
            None => {
                return true;
            },
        };
        let ghost all = delay_values(spec_repeat_for(delays@, num_frames as nat));
        let len: usize = delays.len();
        if len == 0 {
            assert(all =~= Seq::<nat>::empty());
            return true;
        }
        let mut total: u64 = 0;
        let mut at: usize = 0;
        let mut i: u32 = 0;
        while i < num_frames
            invariant
                i <= num_frames,
                len == delays@.len(),
                len > 0,
                at == (i as int) % (len as int),
                self.animation is Some,
                self.animation.unwrap().delays@ == delays@,
                all == delay_values(spec_repeat_for(delays@, num_frames as nat)),
                all.len() == num_frames,
                total == delays_total(all.take(i as int)),
                total <= u32::MAX,
            decreases num_frames - i,
        {
            proof {
                lemma_total_take(all, i as int);
                assert(all[i as int] == delays@[at as int]);
                let step = i as int;
                let cycle = len as int;
                assert((step + 1) % cycle == if step % cycle + 1 == cycle {
                    0
                } else {
                    step % cycle + 1
                }) by (nonlinear_arith)
                    requires
                        0 <= step,
                        0 < cycle,
                ;
            }
            total = total + delays[at] as u64;
            assert(total == delays_total(all.take(i + 1)));
            if total > u32::MAX as u64 {
                assert(delays_total(all) > u32::MAX);
                assert(self.spec_delay(num_frames as int) == Some(all));
                return false;
            }
            at = if at + 1 == len {
                0
            } else {
                at + 1
            };
            i += 1;
        }
        assert(all.take(num_frames as int) =~= all);
        true
    }

    /// Whether an atlas can be cut into an icon by this configuration.
    pub fn is_valid_for(&self, img: &Raster) -> (r: bool)
        ensures
            r == self.spec_valid_for(img@),
    {
        if !self.can_cut() {
            return false;
        }
        if crate::raster::channel_count(self.output_icon_size.x, self.output_icon_size.y)
            > isize::MAX as u128 {
            return false;
        }
        self.delays_fit(img.height() / self.icon_size.y)
    }

    /// Whether the diagnostic images of an atlas can be made.
    pub fn debug_fits(&self, img: &Raster) -> (r: bool)
        requires
            self.icon_size.y > 0,
        ensures
            r == self.spec_debug_fits(img@),
    {
        if img.height() / self.icon_size.y == 0 {
            return false;
        }
        let direction_count: usize = self.direction_strategy.input_vec().len();
        assert(0 <= direction_count * direction_count <= 64) by (nonlinear_arith)
            requires
                0 <= direction_count <= 8,
        ;
        let squared: u128 = (direction_count as u128) * (direction_count as u128);
        assert(0 <= squared * self.icon_size.x <= 64 * 0xffff_ffff) by (nonlinear_arith)
            requires
                0 <= squared <= 64,
                0 <= self.icon_size.x <= 0xffff_ffff,
        ;
        let width: u128 = squared * (self.icon_size.x as u128);
        if width > u32::MAX as u128 {
            return false;
        }
        crate::raster::channel_count(width as u32, self.icon_size.y) <= isize::MAX as u128
    }

    /// Whether `perform_operation` takes this input in this mode.
    pub fn can_perform(&self, input: &InputIcon, mode: OperationMode) -> (r: bool)
        ensures
            r == (input matches InputIcon::DynamicImage(img) ==> {
                &&& self.spec_expected_width() <= u32::MAX
                &&& img@.width == self.spec_expected_width() ==> {
                    &&& self.spec_valid_for(img@)
                    &&& mode == OperationMode::Debug ==> self.spec_debug_fits(img@)
                }
            }),
    {
        let img = match input {
            InputIcon::DynamicImage(img) => img,
            _ => {
                return true;
            },
        };
        let expected = match self.expected_width() {
            Some(expected) => expected,
            None => {
                return false;
            },
        };
        if img.width() != expected {
            return true;
        }
        if !self.is_valid_for(img) {
            return false;
        }
        match mode {
            OperationMode::Debug => self.debug_fits(img),
            OperationMode::Standard => true,
        }
    }

    /// What the width of an atlas says of it: nothing where it is the
    /// expected width; that the atlas is a tile per direction off where the
    /// widths differ by one tile for each direction, with the number of
    /// tiles per direction that is expected and that the atlas has room
    /// for; that it holds another
    /// number of directions where its width is a multiple of the width of
    /// the tiles of one direction; and else only that the width is wrong.
    pub open spec fn spec_check_width(&self, actual_width: u32) -> Result<(), ProcessorError> {
        let expected = self.spec_expected_width();
        let directions = self.spec_direction_count() as int;
        let per_direction = self.spec_tiles_per_direction() * self.icon_size.x;
        let difference = if expected >= actual_width {
            expected - actual_width
        } else {
            actual_width - expected
        };
        if expected == actual_width {
            Ok(())
        } else if difference == directions * self.icon_size.x {
            Err(
                ProcessorError::ImageWidthOffByOne(
                    expected as u32,
                    actual_width,
                    self.spec_tiles_per_direction() as u32,
                    (actual_width as int / (directions * self.icon_size.x)) as u32,
                ),
            )
        } else if per_direction > 0 && actual_width as int % per_direction == 0 {
            Err(
                ProcessorError::ImageWidthOffByDirection(
                    expected as u32,
                    actual_width,
                    directions as u32,
                    (actual_width as int / per_direction) as u32,
                ),
            )
        } else {
            Err(ProcessorError::ImproperImageWidth(expected as u32, actual_width))
        }
    }

    /// Holds the width of an atlas against the width that the configuration
    /// asks for.
    pub fn check_width(&self, actual_width: u32) -> (r: Result<(), ProcessorError>)
        requires
            self.spec_expected_width() <= u32::MAX,
        ensures
            r == self.spec_check_width(actual_width),
            r is Ok <==> actual_width == self.spec_expected_width(),
    {
        let position_count: u32 = self.positions.count() as u32;
        let direction_count: u32 = self.direction_strategy.input_vec().len() as u32;
        let prefab_count: usize = match &self.prefabs {
            Some(prefabs) => prefabs.count(),
            None => 0,
        };
        let tiles: u128 = position_count as u128 + prefab_count as u128;
        proof {
            lemma_width_parts(
                direction_count as int,
                tiles as int,
                self.icon_size.x as int,
                self.spec_expected_width(),
            );
        }
        let per_direction: u128 = tiles * (self.icon_size.x as u128);
        let expected_width: u32 = ((direction_count as u128) * per_direction) as u32;
        if expected_width != actual_width {
            let difference: u32 = if expected_width >= actual_width {
                expected_width - actual_width
            } else {
                actual_width - expected_width
            };
            let one_each: u64 = (direction_count as u64) * (self.icon_size.x as u64);
            if difference as u64 == one_each {
                assert(tiles <= expected_width) by (nonlinear_arith)
                    requires
                        expected_width == direction_count * (tiles * self.icon_size.x),
                        direction_count >= 1,
                        self.icon_size.x >= 1,
                        tiles >= 0,
                ;
                let expected_inputs: u32 = tiles as u32;
                let reality_inputs: u32 = ((actual_width as u64) / one_each) as u32;
                return Err(
                    ProcessorError::ImageWidthOffByOne(
                        expected_width,
                        actual_width,
                        expected_inputs,
                        reality_inputs,
                    ),
                );
            }
            if per_direction > 0 && (actual_width as u128) % per_direction == 0 {
                let actual_direction: u32 = ((actual_width as u128) / per_direction) as u32;
                return Err(
                    ProcessorError::ImageWidthOffByDirection(
                        expected_width,
                        actual_width,
                        direction_count,
                        actual_direction,
                    ),
                );
            }
            return Err(ProcessorError::ImproperImageWidth(expected_width, actual_width));
        }
        Ok(())
    }
}

/// The parts of a width that fits 32 bits fit 64 bits, wherever a
/// direction has a tile.
proof fn lemma_width_parts(directions: int, tiles: int, tile_width: int, expected: int)
    requires
        1 <= directions <= 8,
        0 <= tiles,
        0 <= tile_width <= u32::MAX,
        expected == directions * tiles * tile_width,
        expected <= u32::MAX,
    ensures
        0 <= tiles * tile_width <= expected,
        directions * (tiles * tile_width) == expected,
        0 <= directions * tile_width <= 8 * u32::MAX,
{
    assert(0 <= tiles * tile_width) by (nonlinear_arith)
        requires
            0 <= tiles,
            0 <= tile_width,
    ;
    assert(directions * (tiles * tile_width) == directions * tiles * tile_width)
        by (nonlinear_arith);
    assert(tiles * tile_width <= directions * (tiles * tile_width)) by (nonlinear_arith)
        requires
            1 <= directions,
            0 <= tiles * tile_width,
    ;
    assert(0 <= directions * tile_width <= 8 * u32::MAX) by (nonlinear_arith)
        requires
            1 <= directions <= 8,
            0 <= tile_width <= u32::MAX,
    ;
}

/// Where an adjacency stands in a list that holds it.
pub fn find_adjacency(list: &Vec<Adjacency>, adjacency: Adjacency) -> (r: usize)
    requires
        list@.contains(adjacency),
    ensures
        r < list@.len(),
        list@[r as int] == adjacency,
        forall|k: int| 0 <= k < r ==> list@[k] != adjacency,
{
    let mut at: usize = 0;
    while at < list.len() && list[at] != adjacency
        invariant
            at <= list@.len(),
            list@.contains(adjacency),
            forall|k: int| 0 <= k < at ==> list@[k] != adjacency,
        decreases list@.len() - at,
    {
        at += 1;
    }
    at
}

/// How many states of a list have a given name.
pub open spec fn named_count(states: Seq<IconStateView>, name: Seq<char>) -> nat
    decreases states.len(),
{
    if states.len() == 0 {
        0
    } else {
        named_count(states.drop_last(), name) + if states.last().name == name {
            1nat
        } else {
            0nat
        }
    }
}

proof fn lemma_named_count_add(first: Seq<IconStateView>, second: Seq<IconStateView>, name: Seq<char>)
    ensures
        named_count(first + second, name) == named_count(first, name) + named_count(second, name),
    decreases second.len(),
{
    if second.len() == 0 {
        assert(first + second =~= first);
    } else {
        assert((first + second).drop_last() =~= first + second.drop_last());
        lemma_named_count_add(first, second.drop_last(), name);
    }
}

/// The file name of the diagnostic image of one corner.
fn debug_name(dir_index: u32, direction: Direction, input_index: u32, kind: CornerType, corner: Corner) -> (r:
    String)
    ensures
        r@ == BitmaskSlice::spec_debug_name(
            dir_index as int,
            direction,
            input_index as int,
            kind,
            corner,
        ),
{
    proof {
        reveal_strlit("-");
    }
    let mut name = String::from_str("CORNER-");
    name.append(decimal_string(dir_index as u128).as_str());
    name.append(direction.name());
    name.append("-");
    name.append(decimal_string(input_index as u128).as_str());
    name.append("-");
    name.append(kind.debug_name());
    name.append("-");
    name.append(corner.name());
    name
}

/// The factors of a canvas width that fits 32 bits fit 32 bits.
proof fn lemma_canvas_width(directions: int, libraries: int, tile_width: int)
    requires
        1 <= directions <= 8,
        0 <= tile_width,
        libraries == directions,
    ensures
        0 <= directions * libraries <= 64,
        0 <= directions * libraries * tile_width,
{
    assert(0 <= directions * libraries <= 64) by (nonlinear_arith)
        requires
            1 <= directions <= 8,
            libraries == directions,
    ;
    assert(0 <= directions * libraries * tile_width) by (nonlinear_arith)
        requires
            0 <= directions * libraries,
            0 <= tile_width,
    ;
}

/// The places of the diagnostic images go by direction, kind and corner.
proof fn lemma_place_order(used: int, dd: int, kk: int, cc: int, d: int, kind: int, c: int)
    requires
        0 < used,
        0 <= kk < used,
        0 <= cc < 4,
        0 <= dd,
        0 <= kind <= used,
        0 <= c <= 4,
        dd < d || (dd == d && kk < kind) || (dd == d && kk == kind && cc < c),
    ensures
        0 <= (dd * used + kk) * 4 + cc < (d * used + kind) * 4 + c,
{
    assert(0 <= dd * used) by (nonlinear_arith)
        requires
            0 <= dd,
            0 < used,
    ;
    if dd < d {
        assert((dd + 1) * used <= d * used) by (nonlinear_arith)
            requires
                dd + 1 <= d,
                0 < used,
        ;
        assert((dd + 1) * used == dd * used + used) by (nonlinear_arith);
    }
}

/// The frames that fit the height of an atlas lie within what 32 bits hold.
proof fn lemma_frames_fit(height: int, tile_height: int, cut: int)
    requires
        0 <= height <= u32::MAX,
        0 < tile_height,
        0 <= cut <= tile_height,
    ensures
        0 <= height / tile_height <= u32::MAX,
        (height / tile_height) * tile_height <= height,
        height / tile_height > 0 ==> (height / tile_height - 1) * tile_height + cut <= u32::MAX,
{
    let frames = height / tile_height;
    assert(0 <= frames <= height && frames * tile_height <= height) by (nonlinear_arith)
        requires
            frames == height / tile_height,
            0 <= height,
            0 < tile_height,
    ;
    assert((frames - 1) * tile_height + tile_height == frames * tile_height)
        by (nonlinear_arith);
}

/// A tile that can be cut for the last direction can be cut for each.
proof fn lemma_column_fits(d: int, directions: int, tiles: int, column: int, tile_width: int, margin: int)
    requires
        0 <= d < directions,
        0 <= tiles,
        0 <= column,
        0 <= tile_width,
        0 <= margin,
        BitmaskSlice::tile_index(directions - 1, tiles, column) <= u32::MAX,
        BitmaskSlice::tile_index(directions - 1, tiles, column) * tile_width + margin <= u32::MAX,
    ensures
        0 <= d * tiles <= u32::MAX,
        0 <= BitmaskSlice::tile_index(d, tiles, column) <= u32::MAX,
        0 <= BitmaskSlice::tile_index(d, tiles, column) * tile_width,
        BitmaskSlice::tile_index(d, tiles, column) * tile_width + margin <= u32::MAX,
{
    let last = directions - 1;
    assert(0 <= d * tiles <= last * tiles) by (nonlinear_arith)
        requires
            0 <= d <= last,
            0 <= tiles,
    ;
    let here = d * tiles + column;
    let there = last * tiles + column;
    assert(0 <= here * tile_width <= there * tile_width) by (nonlinear_arith)
        requires
            0 <= here <= there,
            0 <= tile_width,
    ;
}

/// A product with a smaller factor is no larger.
proof fn lemma_scale_le(a: int, b: int, scale: int)
    requires
        0 <= a <= b,
        0 <= scale,
    ensures
        0 <= a * scale <= b * scale,
{
    assert(0 <= a * scale <= b * scale) by (nonlinear_arith)
        requires
            0 <= a <= b,
            0 <= scale,
    ;
}

/// The start of a tile is not negative.
proof fn lemma_rect_fits(index: int, size: int, cut: int)
    requires
        0 <= index,
        0 <= size,
        0 <= cut,
    ensures
        0 <= index * size,
{
    assert(0 <= index * size) by (nonlinear_arith)
        requires
            0 <= index,
            0 <= size,
    ;
}

} // verus!
