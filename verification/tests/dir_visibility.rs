use hypnagogic_core::config::blocks::cutters::{
    CutPosition,
    IconSize,
    OutputIconPosition,
    OutputIconSize,
    Positions,
    SlicePoint,
};
use hypnagogic_core::icon::Icon;
use hypnagogic_core::operations::cutters::bitmask_dir_visibility::BitmaskDirectionalVis;
use hypnagogic_core::operations::cutters::bitmask_slice::{BitmaskSlice, SideSpacing};
use hypnagogic_core::operations::error::ProcessorError;
use hypnagogic_core::operations::{InputIcon, OperationMode, OutputImage, ProcessorPayload};
use hypnagogic_core::raster::Raster;
use hypnagogic_core::util::corners::{CornerSet, CornerType, Side};
use hypnagogic_core::util::directions::DirectionStrategy;

/// An atlas of four tiles of 4 x 4 pixels in which every pixel tells its
/// place.
fn placed_atlas(frames: u32) -> Raster {
    let mut data = Vec::new();
    for y in 0..(4 * frames) {
        for x in 0..16u32 {
            data.extend_from_slice(&[x as u8, y as u8, 1, 255]);
        }
    }
    Raster::new(16, 4 * frames, data).unwrap()
}

fn dot(image: &Raster, x: u32, y: u32) -> [u8; 4] {
    let at = 4 * (y * image.width() + x) as usize;
    let data = image.data();
    [data[at], data[at + 1], data[at + 2], data[at + 3]]
}

fn vis_config(strategy: DirectionStrategy) -> BitmaskDirectionalVis {
    let mut positions = Positions::new();
    positions.insert(CornerType::Convex, 0);
    positions.insert(CornerType::Concave, 1);
    positions.insert(CornerType::Horizontal, 2);
    positions.insert(CornerType::Vertical, 3);
    BitmaskDirectionalVis {
        bitmask_slice_config: BitmaskSlice {
            output_name: None,
            output_type: CornerSet::Cardinal,
            direction_strategy: strategy,
            icon_size: IconSize { x: 4, y: 4 },
            output_icon_pos: OutputIconPosition { x: 0, y: 0 },
            output_icon_size: OutputIconSize { x: 4, y: 4 },
            positions,
            cut_pos: CutPosition { x: 2, y: 2 },
            animation: None,
            prefabs: None,
            map_icon: None,
        },
        slice_point: SlicePoint { north: Some(1), south: Some(3), east: Some(3), west: Some(1) },
        mask_color: None,
    }
}

fn cut_vis(config: &BitmaskDirectionalVis, atlas: Raster) -> Icon {
    match config.perform_operation(&InputIcon::DynamicImage(atlas), OperationMode::Standard) {
        Ok(ProcessorPayload::Single(image)) => match *image {
            OutputImage::Dmi(icon) => icon,
            _ => panic!("the cutter hands back an icon"),
        },
        _ => panic!("the cutter hands back a single image"),
    }
}

#[test]
fn side_cuts_follow_the_slice_points() {
    let config = vis_config(DirectionStrategy::Standard);
    assert_eq!(config.get_side_cuts(Side::North), SideSpacing { start: 0, end: 1 });
    assert_eq!(config.get_side_cuts(Side::South), SideSpacing { start: 3, end: 4 });
    assert_eq!(config.get_side_cuts(Side::East), SideSpacing { start: 3, end: 4 });
    assert_eq!(config.get_side_cuts(Side::West), SideSpacing { start: 0, end: 1 });
    assert_eq!(config.verify_config(), Ok(()));
}

#[test]
fn each_adjacency_gets_a_state_for_each_side() {
    let config = vis_config(DirectionStrategy::Standard);
    let icon = cut_vis(&config, placed_atlas(1));
    assert_eq!((icon.width, icon.height), (4, 4));
    assert_eq!(icon.states.len(), 16 * 4 + 4);
    let names: Vec<&str> = icon.states.iter().map(|state| state.name.as_str()).collect();
    assert_eq!(&names[0..5], &["0-2", "0-1", "0-4", "0-8", "1-2"]);
    assert_eq!(&names[60..68], &["15-2", "15-1", "15-4", "15-8", "innercorner-5",
        "innercorner-6", "innercorner-10", "innercorner-9"]);
    for state in &icon.states {
        assert_eq!(state.dirs, 1);
        assert_eq!(state.frames, 1);
        assert_eq!(state.images.len(), 1);
        assert_eq!((state.images[0].width(), state.images[0].height()), (4, 4));
    }
    // the tile of no neighbours is the convex tile; its sides are its borders
    let south = &icon.states[0].images[0];
    let north = &icon.states[1].images[0];
    let east = &icon.states[2].images[0];
    let west = &icon.states[3].images[0];
    for y in 0..4u32 {
        for x in 0..4u32 {
            let here = [x as u8, y as u8, 1, 255];
            let nothing = [0, 0, 0, 0];
            assert_eq!(dot(south, x, y), if y >= 3 { here } else { nothing });
            assert_eq!(dot(north, x, y), if y < 1 { here } else { nothing });
            assert_eq!(dot(east, x, y), if x >= 3 { here } else { nothing });
            assert_eq!(dot(west, x, y), if x < 1 { here } else { nothing });
        }
    }
}

#[test]
fn inner_corners_are_cut_from_the_tile_of_all_cardinals() {
    let config = vis_config(DirectionStrategy::Standard);
    let icon = cut_vis(&config, placed_atlas(1));
    // the tile of all cardinal neighbours is the concave tile, columns 4 to 7
    let north_east = &icon.states[64].images[0];
    let south_east = &icon.states[65].images[0];
    let south_west = &icon.states[66].images[0];
    let north_west = &icon.states[67].images[0];
    for y in 0..4u32 {
        for x in 0..4u32 {
            let here = [4 + x as u8, y as u8, 1, 255];
            let nothing = [0, 0, 0, 0];
            assert_eq!(dot(north_east, x, y), if x >= 2 && y < 1 { here } else { nothing });
            assert_eq!(dot(south_east, x, y), if x >= 2 && y >= 3 { here } else { nothing });
            assert_eq!(dot(south_west, x, y), if x < 2 && y >= 3 { here } else { nothing });
            assert_eq!(dot(north_west, x, y), if x < 2 && y < 1 { here } else { nothing });
        }
    }
}

#[test]
fn directions_follow_each_other_with_all_their_frames() {
    let mut config = vis_config(DirectionStrategy::CardinalsRotated);
    config.bitmask_slice_config.output_name = Some("ignored".to_string());
    let icon = cut_vis(&config, placed_atlas(2));
    let state = &icon.states[1];
    assert_eq!(state.name, "0-1");
    assert_eq!(state.dirs, 4);
    assert_eq!(state.frames, 2);
    assert_eq!(state.images.len(), 8);
    // every direction shows the tiles of the only input direction
    for direction in 0..4usize {
        for frame in 0..2usize {
            let image = &state.images[2 * direction + frame];
            assert_eq!(dot(image, 2, 0), [2, 4 * frame as u8, 1, 255]);
            assert_eq!(dot(image, 2, 1), [0, 0, 0, 0]);
        }
    }
}

#[test]
fn the_width_of_the_atlas_is_checked() {
    let config = vis_config(DirectionStrategy::Standard);
    let wide = Raster::new(20, 4, vec![0; 320]).unwrap();
    assert_eq!(
        config.perform_operation(&InputIcon::DynamicImage(wide), OperationMode::Standard),
        Err(ProcessorError::ImageWidthOffByOne(16, 20, 4, 5))
    );
    let icon = Icon { width: 1, height: 1, states: vec![] };
    assert_eq!(
        config.perform_operation(&InputIcon::Dmi(icon), OperationMode::Standard),
        Err(ProcessorError::ImageNotFound)
    );
}
