use hypnagogic_core::config::blocks::cutters::{
    Animation,
    CutPosition,
    IconSize,
    OutputIconPosition,
    OutputIconSize,
    Positions,
    Prefabs,
};
use hypnagogic_core::config::blocks::generators::MapIcon;
use hypnagogic_core::icon::Icon;
use hypnagogic_core::operations::cutters::bitmask_slice::{BitmaskSlice, SideSpacing};
use hypnagogic_core::operations::error::ProcessorError;
use hypnagogic_core::operations::{InputIcon, OperationMode, OutputImage, ProcessorPayload};
use hypnagogic_core::raster::Raster;
use hypnagogic_core::util::adjacency::Adjacency;
use hypnagogic_core::util::corners::{Corner, CornerSet, CornerType, Side};
use hypnagogic_core::util::directions::DirectionStrategy;

const TILE: u32 = 32;

fn tile_color(column: u32, frame: u32) -> [u8; 4] {
    [10 + 20 * column as u8, 100 + 50 * frame as u8, 7, 255]
}

/// An atlas in which every tile has one colour, told by column and frame.
fn flat_atlas(columns: u32, frames: u32, tile: u32) -> Raster {
    let width = columns * tile;
    let height = frames * tile;
    let mut data = Vec::new();
    for y in 0..height {
        for x in 0..width {
            data.extend_from_slice(&tile_color(x / tile, y / tile));
        }
    }
    Raster::new(width, height, data).unwrap()
}

fn pixel(image: &Raster, x: u32, y: u32) -> [u8; 4] {
    let at = 4 * (y * image.width() + x) as usize;
    let data = image.data();
    [data[at], data[at + 1], data[at + 2], data[at + 3]]
}

fn cardinal_positions() -> Positions {
    let mut positions = Positions::new();
    positions.insert(CornerType::Convex, 0);
    positions.insert(CornerType::Concave, 1);
    positions.insert(CornerType::Horizontal, 2);
    positions.insert(CornerType::Vertical, 3);
    positions
}

fn cardinal_config() -> BitmaskSlice {
    BitmaskSlice {
        output_name: None,
        output_type: CornerSet::Cardinal,
        direction_strategy: DirectionStrategy::Standard,
        icon_size: IconSize { x: TILE, y: TILE },
        output_icon_pos: OutputIconPosition { x: 0, y: 0 },
        output_icon_size: OutputIconSize { x: TILE, y: TILE },
        positions: cardinal_positions(),
        cut_pos: CutPosition { x: 16, y: 16 },
        animation: None,
        prefabs: None,
        map_icon: None,
    }
}

fn cut(config: &BitmaskSlice, atlas: Raster) -> Icon {
    let payload =
        config.perform_operation(&InputIcon::DynamicImage(atlas), OperationMode::Standard);
    match payload {
        Ok(ProcessorPayload::Single(image)) => match *image {
            OutputImage::Dmi(icon) => icon,
            _ => panic!("the cutter hands back an icon"),
        },
        _ => panic!("the cutter hands back a single image"),
    }
}

fn whole_image_is(image: &Raster, color: [u8; 4]) -> bool {
    (0..image.height()).all(|y| (0..image.width()).all(|x| pixel(image, x, y) == color))
}

#[test]
fn side_spacing_and_side_info() {
    assert_eq!(SideSpacing { start: 3, end: 10 }.step(), 7);
    assert_eq!(SideSpacing { start: 4, end: 4 }.step(), 0);
    let mut config = cardinal_config();
    config.cut_pos = CutPosition { x: 10, y: 20 };
    assert_eq!(config.get_side_info(Side::North), SideSpacing { start: 0, end: 20 });
    assert_eq!(config.get_side_info(Side::South), SideSpacing { start: 20, end: 32 });
    assert_eq!(config.get_side_info(Side::East), SideSpacing { start: 10, end: 32 });
    assert_eq!(config.get_side_info(Side::West), SideSpacing { start: 0, end: 10 });
}

#[test]
fn minimal_cardinal_atlas_gives_sixteen_states() {
    let config = cardinal_config();
    let icon = cut(&config, flat_atlas(4, 1, TILE));
    assert_eq!(icon.width, 32);
    assert_eq!(icon.height, 32);
    assert_eq!(icon.states.len(), 16);
    for (bits, state) in icon.states.iter().enumerate() {
        assert_eq!(state.name, bits.to_string());
        assert_eq!(state.dirs, 1);
        assert_eq!(state.frames, 1);
        assert_eq!(state.images.len(), 1);
        assert_eq!(state.delay, None);
        assert!(!state.rewind);
        assert_eq!(state.images[0].width(), 32);
        assert_eq!(state.images[0].height(), 32);
    }
    assert!(whole_image_is(&icon.states[0].images[0], tile_color(0, 0)));
    assert!(whole_image_is(&icon.states[15].images[0], tile_color(1, 0)));
    assert!(whole_image_is(&icon.states[12].images[0], tile_color(2, 0)));
    assert!(whole_image_is(&icon.states[3].images[0], tile_color(3, 0)));
}

#[test]
fn corners_are_taken_from_the_tile_of_their_kind() {
    let config = cardinal_config();
    let icon = cut(&config, flat_atlas(4, 1, TILE));
    // north alone: the two northern corners are vertical, the southern convex
    let north = &icon.states[1].images[0];
    assert_eq!(pixel(north, 31, 0), tile_color(3, 0));
    assert_eq!(pixel(north, 0, 0), tile_color(3, 0));
    assert_eq!(pixel(north, 0, 15), tile_color(3, 0));
    assert_eq!(pixel(north, 0, 16), tile_color(0, 0));
    assert_eq!(pixel(north, 31, 31), tile_color(0, 0));
    // north and east: concave in the north east, vertical in the north
    // west, horizontal in the south east, convex in the south west
    let north_east = &icon.states[5].images[0];
    assert_eq!(pixel(north_east, 16, 15), tile_color(1, 0));
    assert_eq!(pixel(north_east, 15, 15), tile_color(3, 0));
    assert_eq!(pixel(north_east, 16, 16), tile_color(2, 0));
    assert_eq!(pixel(north_east, 15, 16), tile_color(0, 0));
}

#[test]
fn corners_keep_their_place_within_the_tile() {
    // an atlas of one frame in which every pixel tells its place
    let mut data = Vec::new();
    for y in 0..4u32 {
        for x in 0..16u32 {
            data.extend_from_slice(&[x as u8, y as u8, 0, 255]);
        }
    }
    let atlas = Raster::new(16, 4, data).unwrap();
    let mut config = cardinal_config();
    config.icon_size = IconSize { x: 4, y: 4 };
    config.output_icon_size = OutputIconSize { x: 4, y: 4 };
    config.cut_pos = CutPosition { x: 1, y: 3 };
    let icon = cut(&config, atlas);
    let convex = &icon.states[0].images[0];
    let concave = &icon.states[15].images[0];
    for y in 0..4 {
        for x in 0..4 {
            assert_eq!(pixel(convex, x, y), [x as u8, y as u8, 0, 255]);
            assert_eq!(pixel(concave, x, y), [4 + x as u8, y as u8, 0, 255]);
        }
    }
    // south and west, with the cut at (1, 3): concave in the south west,
    // vertical in the south east, horizontal in the north west, convex in
    // the north east
    let south_west = &icon.states[10].images[0];
    assert_eq!(pixel(south_west, 0, 3), [4, 3, 0, 255]);
    assert_eq!(pixel(south_west, 1, 3), [12 + 1, 3, 0, 255]);
    assert_eq!(pixel(south_west, 0, 2), [8, 2, 0, 255]);
    assert_eq!(pixel(south_west, 1, 2), [1, 2, 0, 255]);
}

#[test]
fn build_corner_cuts_the_four_corners_of_each_frame() {
    let mut data = Vec::new();
    for y in 0..8u32 {
        for x in 0..8u32 {
            data.extend_from_slice(&[x as u8, y as u8, 0, 255]);
        }
    }
    let atlas = Raster::new(8, 8, data).unwrap();
    let mut config = cardinal_config();
    config.icon_size = IconSize { x: 4, y: 4 };
    config.cut_pos = CutPosition { x: 1, y: 3 };
    let corners = config.build_corner(&atlas, 1, 2, 0, 2, 0);
    assert_eq!(corners.len(), 4);
    for frames in &corners {
        assert_eq!(frames.len(), 2);
    }
    let north_east = &corners[Corner::NorthEast.ordinal()][0];
    assert_eq!((north_east.width(), north_east.height()), (3, 3));
    assert_eq!(pixel(north_east, 0, 0), [5, 0, 0, 255]);
    assert_eq!(pixel(north_east, 2, 2), [7, 2, 0, 255]);
    let south_east = &corners[Corner::SouthEast.ordinal()][1];
    assert_eq!((south_east.width(), south_east.height()), (3, 1));
    assert_eq!(pixel(south_east, 0, 0), [5, 7, 0, 255]);
    let south_west = &corners[Corner::SouthWest.ordinal()][0];
    assert_eq!((south_west.width(), south_west.height()), (1, 1));
    assert_eq!(pixel(south_west, 0, 0), [4, 3, 0, 255]);
    let north_west = &corners[Corner::NorthWest.ordinal()][1];
    assert_eq!((north_west.width(), north_west.height()), (1, 3));
    assert_eq!(pixel(north_west, 0, 2), [4, 6, 0, 255]);
    // a tile that lies outside the atlas gives corners without pixels
    let outside = config.build_corner(&atlas, 5, 2, 0, 1, 0);
    assert_eq!(outside[0][0].width(), 0);
}

#[test]
fn generate_corners_and_icons_fill_every_entry() {
    let config = cardinal_config();
    let atlas = flat_atlas(4, 2, TILE);
    let (corners, prefabs) = config.generate_corners(&atlas).unwrap();
    assert_eq!(corners.len(), 1);
    assert_eq!(corners[0].len(), 4);
    assert_eq!(corners[0][0].len(), 4);
    assert_eq!(corners[0][0][0].len(), 2);
    assert_eq!(prefabs.len(), 1);
    assert_eq!(prefabs[0].len(), 0);
    assert!(whole_image_is(&corners[0][2][1][1], tile_color(2, 1)));
    let adjacencies = CornerSet::Cardinal.output_adjacencies();
    let assembled = config.generate_icons(&corners, &prefabs, 2, &adjacencies);
    assert_eq!(assembled.len(), 1);
    assert_eq!(assembled[0].len(), 16);
    assert_eq!(assembled[0][15].len(), 2);
    assert!(whole_image_is(&assembled[0][15][1], tile_color(1, 1)));
    let tiles = config.assemble_tiles(&atlas, &corners, &prefabs);
    assert_eq!(tiles, assembled);
    assert_eq!(config.cut_icon(&atlas), config.assemble_icon(&atlas, &corners, &prefabs));
}

#[test]
fn output_name_becomes_the_prefix_of_every_state() {
    let mut config = cardinal_config();
    config.output_name = Some("wall".to_string());
    let icon = cut(&config, flat_atlas(4, 1, TILE));
    assert_eq!(icon.states[0].name, "wall-0");
    assert_eq!(icon.states[15].name, "wall-15");
}

#[test]
fn orphaned_corners_get_no_state() {
    let mut config = cardinal_config();
    config.output_type = CornerSet::StandardDiagonal;
    config.positions.insert(CornerType::Flat, 4);
    let icon = cut(&config, flat_atlas(5, 1, TILE));
    let names: Vec<&str> = icon.states.iter().map(|state| state.name.as_str()).collect();
    assert_eq!(names.len(), 47);
    assert!(!names.contains(&"16"));
    assert!(!names.contains(&"48"));
    assert!(names.contains(&"23"));
    assert!(names.contains(&"255"));
    let full = icon.states.iter().find(|state| state.name == "255").unwrap();
    assert!(whole_image_is(&full.images[0], tile_color(4, 0)));
    let mut sorted = names.clone();
    sorted.sort();
    sorted.dedup();
    assert_eq!(sorted.len(), names.len());
}

#[test]
fn every_emitted_adjacency_without_orphan_has_one_state() {
    let mut config = cardinal_config();
    config.output_type = CornerSet::CornerDiagonal;
    config.output_name = Some("w".to_string());
    let kinds = CornerSet::CornerDiagonal.corners_used();
    for (column, kind) in kinds.iter().enumerate() {
        config.positions.insert(*kind, column as u32);
    }
    let mut small = config;
    small.icon_size = IconSize { x: 4, y: 4 };
    small.output_icon_size = OutputIconSize { x: 4, y: 4 };
    small.cut_pos = CutPosition { x: 2, y: 2 };
    let icon = cut(&small, flat_atlas(13, 1, 4));
    for adjacency in CornerSet::CornerDiagonal.output_adjacencies() {
        let name = format!("w-{}", adjacency.pretty_print());
        let count = icon.states.iter().filter(|state| state.name == name).count();
        if adjacency.has_no_orphaned_corner() {
            assert_eq!(count, 1, "{}", name);
        }
    }
    assert_eq!(icon.states.len(), 47 + 8);
    let inner = icon.states.iter().find(|state| state.name == "w-5-d").unwrap();
    assert!(whole_image_is(&inner.images[0], tile_color(7, 0)));
    let outer = icon.states.iter().find(|state| state.name == "w-21-d").unwrap();
    assert!(whole_image_is(&outer.images[0], tile_color(11, 0)));
}

#[test]
fn rotated_cardinals_show_the_rotated_adjacency() {
    let mut config = cardinal_config();
    config.direction_strategy = DirectionStrategy::CardinalsRotated;
    let icon = cut(&config, flat_atlas(4, 1, TILE));
    let plain = cut(&cardinal_config(), flat_atlas(4, 1, TILE));
    assert_eq!(icon.states.len(), 16);
    let north = &icon.states[1];
    assert_eq!(north.name, "1");
    assert_eq!(north.dirs, 4);
    assert_eq!(north.images.len(), 4);
    // directions south, north, east, west show adjacencies 1, 2, 8, 4
    assert_eq!(north.images[0], plain.states[1].images[0]);
    assert_eq!(north.images[1], plain.states[2].images[0]);
    assert_eq!(north.images[2], plain.states[8].images[0]);
    assert_eq!(north.images[3], plain.states[4].images[0]);
    assert_ne!(north.images[0], north.images[1]);
}

#[test]
fn cardinals_take_each_direction_from_its_own_tiles() {
    let mut config = cardinal_config();
    config.direction_strategy = DirectionStrategy::Cardinals;
    config.icon_size = IconSize { x: 4, y: 4 };
    config.output_icon_size = OutputIconSize { x: 4, y: 4 };
    config.cut_pos = CutPosition { x: 2, y: 2 };
    let icon = cut(&config, flat_atlas(16, 2, 4));
    let state = &icon.states[0];
    assert_eq!(state.dirs, 4);
    assert_eq!(state.frames, 2);
    assert_eq!(state.images.len(), 8);
    // frame by frame, and within a frame direction by direction
    for frame in 0..2u32 {
        for direction in 0..4u32 {
            let image = &state.images[(frame * 4 + direction) as usize];
            assert!(whole_image_is(image, tile_color(4 * direction, frame)));
        }
    }
    let all = &icon.states[15];
    assert!(whole_image_is(&all.images[4 + 3], tile_color(4 * 3 + 1, 1)));
}

#[test]
fn width_off_by_one_tile_is_told() {
    let config = cardinal_config();
    let result = config
        .perform_operation(&InputIcon::DynamicImage(flat_atlas(5, 1, TILE)), OperationMode::Standard);
    assert_eq!(result, Err(ProcessorError::ImageWidthOffByOne(128, 160, 4, 5)));
    assert_eq!(config.check_width(160), Err(ProcessorError::ImageWidthOffByOne(128, 160, 4, 5)));
    assert_eq!(config.check_width(96), Err(ProcessorError::ImageWidthOffByOne(128, 96, 4, 3)));
    assert_eq!(config.check_width(128), Ok(()));
}

#[test]
fn width_of_another_number_of_directions_is_told() {
    let config = cardinal_config();
    assert_eq!(
        config.check_width(512),
        Err(ProcessorError::ImageWidthOffByDirection(128, 512, 1, 4))
    );
    assert_eq!(config.check_width(0), Err(ProcessorError::ImageWidthOffByDirection(128, 0, 1, 0)));
    let mut four = cardinal_config();
    four.direction_strategy = DirectionStrategy::Cardinals;
    assert_eq!(four.check_width(512), Ok(()));
    assert_eq!(
        four.check_width(128),
        Err(ProcessorError::ImageWidthOffByDirection(512, 128, 4, 1))
    );
    // one tile for each of the four directions more counts as off by one
    assert_eq!(four.check_width(640), Err(ProcessorError::ImageWidthOffByOne(512, 640, 4, 5)));
    assert_eq!(four.check_width(384), Err(ProcessorError::ImageWidthOffByOne(512, 384, 4, 3)));
    assert_eq!(
        four.check_width(1024),
        Err(ProcessorError::ImageWidthOffByDirection(512, 1024, 4, 8))
    );
}

#[test]
fn any_other_width_is_improper() {
    let config = cardinal_config();
    assert_eq!(config.check_width(130), Err(ProcessorError::ImproperImageWidth(128, 130)));
    assert_eq!(config.check_width(1), Err(ProcessorError::ImproperImageWidth(128, 1)));
    assert_eq!(config.check_width(200), Err(ProcessorError::ImproperImageWidth(128, 200)));
    let mut no_width = cardinal_config();
    no_width.icon_size = IconSize { x: 0, y: 32 };
    assert_eq!(no_width.check_width(0), Ok(()));
    assert_eq!(no_width.check_width(5), Err(ProcessorError::ImproperImageWidth(0, 5)));
}

#[test]
fn an_icon_is_no_input_for_the_cutter() {
    let config = cardinal_config();
    let icon = Icon { width: 1, height: 1, states: vec![] };
    assert_eq!(
        config.perform_operation(&InputIcon::Dmi(icon), OperationMode::Standard),
        Err(ProcessorError::ImageNotFound)
    );
    assert_eq!(config.verify_config(), Ok(()));
}

#[test]
fn prefabs_take_the_place_of_composed_tiles() {
    let mut config = cardinal_config();
    config.icon_size = IconSize { x: 4, y: 4 };
    config.cut_pos = CutPosition { x: 2, y: 2 };
    config.output_icon_size = OutputIconSize { x: 6, y: 7 };
    config.output_icon_pos = OutputIconPosition { x: 1, y: 2 };
    let mut prefabs = Prefabs::new();
    prefabs.insert(Adjacency::from_bits(15).unwrap(), 4);
    config.prefabs = Some(prefabs);
    // the prefab tile is half transparent green: replacing keeps it as it is
    let mut atlas_data = flat_atlas(5, 1, 4).data().clone();
    for y in 0..4usize {
        for x in 16..20usize {
            let at = 4 * (y * 20 + x);
            atlas_data[at..at + 4].copy_from_slice(&[0, 200, 0, 128]);
        }
    }
    let atlas = Raster::new(20, 4, atlas_data).unwrap();
    let icon = cut(&config, atlas);
    assert_eq!(icon.width, 6);
    assert_eq!(icon.height, 7);
    let prefab = &icon.states[15].images[0];
    assert_eq!((prefab.width(), prefab.height()), (6, 7));
    for y in 0..7 {
        for x in 0..6 {
            let inside = (1..5).contains(&x) && (2..6).contains(&y);
            let expected = if inside { [0, 200, 0, 128] } else { [0, 0, 0, 0] };
            assert_eq!(pixel(prefab, x, y), expected);
        }
    }
    // composed tiles are drawn from the corner of the canvas
    let convex = &icon.states[0].images[0];
    assert_eq!(pixel(convex, 0, 0), tile_color(0, 0));
    assert_eq!(pixel(convex, 3, 3), tile_color(0, 0));
    assert_eq!(pixel(convex, 4, 0), [0, 0, 0, 0]);
    assert_eq!(pixel(convex, 0, 4), [0, 0, 0, 0]);
    assert_eq!(pixel(convex, 5, 6), [0, 0, 0, 0]);
}

#[test]
fn prefab_columns_count_from_the_start_of_each_direction() {
    let mut config = cardinal_config();
    config.direction_strategy = DirectionStrategy::Cardinals;
    config.icon_size = IconSize { x: 2, y: 2 };
    config.output_icon_size = OutputIconSize { x: 2, y: 2 };
    config.cut_pos = CutPosition { x: 1, y: 1 };
    let mut prefabs = Prefabs::new();
    prefabs.insert(Adjacency::from_bits(3).unwrap(), 4);
    config.prefabs = Some(prefabs);
    let icon = cut(&config, flat_atlas(20, 1, 2));
    let state = &icon.states[3];
    assert_eq!(state.dirs, 4);
    // direction 0 takes column 4, direction d column 5 * d + 4
    assert!(whole_image_is(&state.images[0], tile_color(4, 0)));
    assert!(whole_image_is(&state.images[1], tile_color(9, 0)));
    assert!(whole_image_is(&state.images[2], tile_color(14, 0)));
    assert!(whole_image_is(&state.images[3], tile_color(19, 0)));
    assert!(whole_image_is(&icon.states[0].images[2], tile_color(10, 0)));
}

#[test]
fn transparent_corners_leave_the_canvas_and_opaque_ones_cover_it() {
    let mut config = cardinal_config();
    config.icon_size = IconSize { x: 2, y: 2 };
    config.output_icon_size = OutputIconSize { x: 2, y: 2 };
    config.cut_pos = CutPosition { x: 1, y: 1 };
    let mut data = flat_atlas(4, 1, 2).data().clone();
    // the convex tile is fully transparent but coloured
    for at in 0..2usize {
        for row in 0..2usize {
            let place = 4 * (row * 8 + at);
            data[place..place + 4].copy_from_slice(&[50, 60, 70, 0]);
        }
    }
    let icon = cut(&config, Raster::new(8, 2, data).unwrap());
    assert!(whole_image_is(&icon.states[0].images[0], [0, 0, 0, 0]));
    assert!(whole_image_is(&icon.states[15].images[0], tile_color(1, 0)));
}

#[test]
fn animations_repeat_their_delays_and_drop_repeated_frames() {
    let mut config = cardinal_config();
    config.icon_size = IconSize { x: 2, y: 2 };
    config.output_icon_size = OutputIconSize { x: 2, y: 2 };
    config.cut_pos = CutPosition { x: 1, y: 1 };
    config.animation = Some(Animation { delays: vec![1000, 2000], rewind: Some(true) });
    let icon = cut(&config, flat_atlas(4, 3, 2));
    let state = &icon.states[0];
    assert_eq!(state.frames, 3);
    assert_eq!(state.delay, Some(vec![1000, 2000, 1000]));
    assert!(state.rewind);
    assert!(whole_image_is(&state.images[2], tile_color(0, 2)));
    // frames that show the same are folded into one
    let mut data = Vec::new();
    for _ in 0..(8 * 6) {
        data.extend_from_slice(&[1, 2, 3, 255]);
    }
    let still = cut(&config, Raster::new(8, 6, data).unwrap());
    assert_eq!(still.states[0].frames, 1);
    assert_eq!(still.states[0].images.len(), 1);
    assert_eq!(still.states[0].delay, Some(vec![4000]));
    config.animation = Some(Animation { delays: vec![500, 500, 500, 500, 500], rewind: None });
    let cut_short = cut(&config, flat_atlas(4, 2, 2));
    assert_eq!(cut_short.states[0].delay, Some(vec![500, 500]));
    assert!(!cut_short.states[0].rewind);
}

#[test]
fn the_map_icon_is_the_last_state() {
    let mut config = cardinal_config();
    let image = Raster::new(1, 1, vec![1, 2, 3, 4]).unwrap();
    config.map_icon = Some(MapIcon { icon_state_name: "map".to_string(), image: image.clone() });
    let icon = cut(&config, flat_atlas(4, 1, TILE));
    assert_eq!(icon.states.len(), 17);
    let last = &icon.states[16];
    assert_eq!(last.name, "map");
    assert_eq!(last.dirs, 1);
    assert_eq!(last.frames, 1);
    assert_eq!(last.images, vec![image]);
    assert_eq!(last.delay, None);
    assert!(!last.rewind);
}

#[test]
fn debug_mode_hands_back_the_corners_too() {
    let mut config = cardinal_config();
    config.icon_size = IconSize { x: 4, y: 4 };
    config.output_icon_size = OutputIconSize { x: 4, y: 4 };
    config.cut_pos = CutPosition { x: 1, y: 3 };
    let atlas = flat_atlas(4, 2, 4);
    let payload = config
        .perform_operation(&InputIcon::DynamicImage(atlas.clone()), OperationMode::Debug)
        .unwrap();
    let list = match payload {
        ProcessorPayload::MultipleNamed(list) => list,
        _ => panic!("debug mode hands back a list"),
    };
    assert_eq!(list.len(), 4 * 4 + 2);
    assert_eq!(list[0].path_hint.as_deref(), Some("DEBUGOUT/CORNERS/"));
    assert_eq!(list[0].name_hint.as_deref(), Some("CORNER-0S-0-Convex-NorthEast"));
    assert_eq!(list[1].name_hint.as_deref(), Some("CORNER-0S-0-Convex-SouthEast"));
    assert_eq!(list[7].name_hint.as_deref(), Some("CORNER-0S-1-Concave-NorthWest"));
    assert_eq!(list[15].name_hint.as_deref(), Some("CORNER-0S-3-Vertical-NorthWest"));
    match &list[0].image {
        OutputImage::Png(image) => {
            assert_eq!((image.width(), image.height()), (3, 3));
            assert!(whole_image_is(image, tile_color(0, 0)));
        },
        _ => panic!("corners are raster images"),
    }
    assert_eq!(list[16].path_hint.as_deref(), Some("DEBUGOUT"));
    assert_eq!(list[16].name_hint.as_deref(), Some("ASSEMBLED-CORNERS"));
    match &list[16].image {
        OutputImage::Png(image) => {
            assert_eq!((image.width(), image.height()), (4, 4));
            assert!(whole_image_is(image, tile_color(0, 0)));
        },
        _ => panic!("the assembled corners are a raster image"),
    }
    assert_eq!(list[17].path_hint, None);
    assert_eq!(list[17].name_hint, None);
    assert_eq!(list[17].image, OutputImage::Dmi(cut(&config, atlas)));
}

#[test]
fn debug_canvas_holds_the_first_row_of_the_atlas() {
    let mut config = cardinal_config();
    config.direction_strategy = DirectionStrategy::Cardinals;
    config.icon_size = IconSize { x: 2, y: 2 };
    config.output_icon_size = OutputIconSize { x: 2, y: 2 };
    config.cut_pos = CutPosition { x: 1, y: 1 };
    let atlas = flat_atlas(16, 1, 2);
    let (corners, _) = config.generate_corners(&atlas).unwrap();
    let list = config.generate_debug_icons(&corners);
    assert_eq!(list.len(), 4 * 4 * 4 + 1);
    assert_eq!(list[16].name_hint.as_deref(), Some("CORNER-1N-4-Convex-NorthEast"));
    assert_eq!(list[63].name_hint.as_deref(), Some("CORNER-3W-15-Vertical-NorthWest"));
    match &list[64].image {
        OutputImage::Png(image) => {
            assert_eq!((image.width(), image.height()), (4 * 4 * 2, 2));
            for x in 0..32 {
                assert_eq!(pixel(image, x, 0), tile_color(x / 2, 0));
                assert_eq!(pixel(image, x, 1), tile_color(x / 2, 0));
            }
        },
        _ => panic!("the assembled corners are a raster image"),
    }
}

#[test]
fn rotated_cardinals_turn_the_variants_of_corners_too() {
    let mut config = cardinal_config();
    config.output_type = CornerSet::CornerDiagonal;
    config.icon_size = IconSize { x: 4, y: 4 };
    config.output_icon_size = OutputIconSize { x: 4, y: 4 };
    config.cut_pos = CutPosition { x: 2, y: 2 };
    for (column, kind) in CornerSet::CornerDiagonal.corners_used().iter().enumerate() {
        config.positions.insert(*kind, column as u32);
    }
    let plain = cut(&config, flat_atlas(13, 1, 4));
    config.direction_strategy = DirectionStrategy::CardinalsRotated;
    let icon = cut(&config, flat_atlas(13, 1, 4));
    assert_eq!(icon.states.len(), 47 + 8);
    let by_name = |icon: &Icon, name: &str| {
        icon.states.iter().find(|state| state.name == name).unwrap().images.clone()
    };
    // top right inner: directions south, north, east, west show the inner
    // corners of north east, south west, north west and south east
    let inner = by_name(&icon, "5-d");
    assert_eq!(inner.len(), 4);
    assert_eq!(inner[0], by_name(&plain, "5-d")[0]);
    assert_eq!(inner[1], by_name(&plain, "10-d")[0]);
    assert_eq!(inner[2], by_name(&plain, "9-d")[0]);
    assert_eq!(inner[3], by_name(&plain, "6-d")[0]);
    assert!(whole_image_is(&inner[1], tile_color(6, 0)));
    let outer = by_name(&icon, "21-d");
    assert_eq!(outer[1], by_name(&plain, "74-d")[0]);
    assert_eq!(outer[2], by_name(&plain, "137-d")[0]);
    assert_eq!(outer[3], by_name(&plain, "38-d")[0]);
    assert!(whole_image_is(&outer[3], tile_color(9, 0)));
}
