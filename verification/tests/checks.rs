use hypnagogic_core::config::blocks::cutters::{
    Animation,
    CutPosition,
    IconSize,
    OutputIconPosition,
    OutputIconSize,
    Positions,
    Prefabs,
    SlicePoint,
    StringMap,
};
use hypnagogic_core::icon::{Icon, IconState};
use hypnagogic_core::operations::cutters::bitmask_dir_visibility::BitmaskDirectionalVis;
use hypnagogic_core::operations::cutters::bitmask_slice::BitmaskSlice;
use hypnagogic_core::operations::format_converter::bitmask_to_precut::BitmaskSliceReconstruct;
use hypnagogic_core::operations::{InputIcon, NamedIcon, OperationMode, OutputImage, OutputText};
use hypnagogic_core::raster::Raster;
use hypnagogic_core::util::adjacency::Adjacency;
use hypnagogic_core::util::corners::{CornerSet, CornerType, Side};
use hypnagogic_core::util::directions::DirectionStrategy;
use hypnagogic_core::util::icon_ops::can_dedupe_frames;

fn empty_image(width: u32, height: u32) -> Raster {
    Raster::new(width, height, vec![0; (4 * width * height) as usize]).unwrap()
}

fn plain_config() -> BitmaskSlice {
    let mut positions = Positions::new();
    positions.insert(CornerType::Convex, 0);
    positions.insert(CornerType::Concave, 1);
    positions.insert(CornerType::Horizontal, 2);
    positions.insert(CornerType::Vertical, 3);
    BitmaskSlice {
        output_name: None,
        output_type: CornerSet::Cardinal,
        direction_strategy: DirectionStrategy::Standard,
        icon_size: IconSize { x: 4, y: 4 },
        output_icon_pos: OutputIconPosition { x: 0, y: 0 },
        output_icon_size: OutputIconSize { x: 4, y: 4 },
        positions,
        cut_pos: CutPosition { x: 2, y: 2 },
        animation: None,
        prefabs: None,
        map_icon: None,
    }
}

#[test]
fn positions_and_prefabs_are_small_tables() {
    let mut positions = Positions::new();
    assert_eq!(positions.count(), 0);
    assert_eq!(positions.get(CornerType::Flat), None);
    positions.insert(CornerType::Flat, 7);
    positions.insert(CornerType::Convex, 1);
    positions.insert(CornerType::Flat, 9);
    assert_eq!(positions.count(), 2);
    assert_eq!(positions.get(CornerType::Flat), Some(9));
    assert_eq!(positions.get(CornerType::Convex), Some(1));
    assert_eq!(positions.clone(), positions);
    let mut prefabs = Prefabs::new();
    let three = Adjacency::from_bits(3).unwrap();
    let five = Adjacency::from_bits(5).unwrap();
    assert_eq!(prefabs.count(), 0);
    assert!(!prefabs.contains_key(three));
    prefabs.insert(three, 4);
    prefabs.insert(five, 5);
    prefabs.insert(three, 6);
    assert_eq!(prefabs.count(), 2);
    assert_eq!(prefabs.get(three), Some(6));
    assert_eq!(prefabs.get(five), Some(5));
    assert_eq!(prefabs.get(Adjacency::empty()), None);
    assert_eq!(prefabs.find(five), Some(1));
    assert_eq!(prefabs.entries(), &vec![(three, 6), (five, 5)]);
    assert_eq!(prefabs.clone(), prefabs);
    let points = SlicePoint { north: Some(1), south: None, east: Some(3), west: Some(4) };
    assert_eq!(points.get(Side::North), Some(1));
    assert_eq!(points.get(Side::South), None);
    assert_eq!(points.get(Side::East), Some(3));
    assert_eq!(points.get(Side::West), Some(4));
    let map = StringMap(vec![("a".to_string(), "1".to_string())]);
    assert!(map.contains_key("a"));
    assert!(!map.contains_key("1"));
}

#[test]
fn the_expected_width_counts_every_tile() {
    let mut config = plain_config();
    assert_eq!(config.expected_width(), Some(16));
    config.direction_strategy = DirectionStrategy::All;
    assert_eq!(config.expected_width(), Some(128));
    let mut prefabs = Prefabs::new();
    prefabs.insert(Adjacency::from_bits(3).unwrap(), 4);
    config.prefabs = Some(prefabs);
    assert_eq!(config.expected_width(), Some(160));
    config.icon_size = IconSize { x: u32::MAX / 40, y: 4 };
    assert_eq!(config.expected_width(), Some(40 * (u32::MAX / 40)));
    config.icon_size = IconSize { x: u32::MAX / 40 + 1, y: 4 };
    assert_eq!(config.expected_width(), None);
}

#[test]
fn a_config_tells_whether_it_can_cut() {
    assert!(plain_config().can_cut());
    let mut no_height = plain_config();
    no_height.icon_size = IconSize { x: 4, y: 0 };
    no_height.cut_pos = CutPosition { x: 2, y: 0 };
    assert!(!no_height.can_cut());
    let mut cut_outside = plain_config();
    cut_outside.cut_pos = CutPosition { x: 5, y: 2 };
    assert!(!cut_outside.can_cut());
    let mut missing = plain_config();
    missing.output_type = CornerSet::StandardDiagonal;
    assert!(!missing.can_cut());
    missing.positions.insert(CornerType::Flat, 4);
    assert!(missing.can_cut());
    let mut far_column = plain_config();
    far_column.positions.insert(CornerType::Vertical, u32::MAX);
    assert!(!far_column.can_cut());
    far_column.positions.insert(CornerType::Vertical, u32::MAX / 4);
    assert!(far_column.can_cut());
    far_column.positions.insert(CornerType::Vertical, u32::MAX / 4 + 1);
    assert!(!far_column.can_cut());
    let mut far_prefab = plain_config();
    let mut prefabs = Prefabs::new();
    prefabs.insert(Adjacency::from_bits(3).unwrap(), u32::MAX);
    far_prefab.prefabs = Some(prefabs);
    assert!(!far_prefab.can_cut());
}

#[test]
fn a_config_tells_whether_it_fits_an_atlas() {
    let atlas = empty_image(16, 8);
    assert!(plain_config().is_valid_for(&atlas));
    assert!(plain_config().debug_fits(&atlas));
    assert!(!plain_config().debug_fits(&empty_image(16, 3)));
    let input = InputIcon::DynamicImage(atlas);
    assert!(plain_config().can_perform(&input, OperationMode::Standard));
    assert!(plain_config().can_perform(&input, OperationMode::Debug));
    let icon = InputIcon::Dmi(Icon { width: 1, height: 1, states: vec![] });
    assert!(plain_config().can_perform(&icon, OperationMode::Debug));
    let low = InputIcon::DynamicImage(empty_image(16, 3));
    assert!(plain_config().can_perform(&low, OperationMode::Standard));
    assert!(!plain_config().can_perform(&low, OperationMode::Debug));
    let narrow = InputIcon::DynamicImage(empty_image(12, 3));
    assert!(plain_config().can_perform(&narrow, OperationMode::Debug));
    let mut rotated = plain_config();
    rotated.direction_strategy = DirectionStrategy::CardinalsRotated;
    assert!(rotated.can_perform(&input, OperationMode::Standard));
    rotated.output_type = CornerSet::CornerDiagonal;
    for (column, kind) in CornerSet::CornerDiagonal.corners_used().iter().enumerate() {
        rotated.positions.insert(*kind, column as u32);
    }
    let wide = InputIcon::DynamicImage(empty_image(52, 4));
    assert!(rotated.can_perform(&wide, OperationMode::Standard));
    rotated.direction_strategy = DirectionStrategy::Standard;
    assert!(rotated.can_perform(&wide, OperationMode::Standard));
    let mut long_delays = plain_config();
    long_delays.animation = Some(Animation { delays: vec![u32::MAX / 2, 1], rewind: None });
    assert!(long_delays.can_perform(&input, OperationMode::Standard));
    long_delays.animation = Some(Animation { delays: vec![u32::MAX / 2 + 1], rewind: None });
    assert!(!long_delays.can_perform(&input, OperationMode::Standard));
    let too_wide = BitmaskSlice {
        icon_size: IconSize { x: u32::MAX, y: 4 },
        ..plain_config()
    };
    assert!(!too_wide.can_perform(&input, OperationMode::Standard));
}

#[test]
fn the_directional_cutter_needs_its_slice_points() {
    let atlas = empty_image(16, 4);
    let mut config = BitmaskDirectionalVis {
        bitmask_slice_config: plain_config(),
        slice_point: SlicePoint { north: Some(1), south: Some(3), east: Some(3), west: Some(1) },
        mask_color: None,
    };
    assert!(config.is_valid_for(&atlas));
    let input = InputIcon::DynamicImage(atlas.clone());
    assert!(config.can_perform(&input, OperationMode::Standard));
    assert!(config.can_perform(&input, OperationMode::Debug));
    config.slice_point.south = Some(5);
    assert!(!config.is_valid_for(&atlas));
    assert!(!config.can_perform(&input, OperationMode::Standard));
    config.slice_point.south = Some(4);
    assert!(config.is_valid_for(&atlas));
    config.slice_point.west = None;
    assert!(!config.is_valid_for(&atlas));
    config.slice_point.west = Some(9);
    config.slice_point.east = None;
    assert!(!config.is_valid_for(&atlas));
    assert!(config.can_perform(&InputIcon::DynamicImage(empty_image(4, 4)), OperationMode::Debug));
}

#[test]
fn a_config_tells_whether_it_can_pack_an_icon() {
    let image = empty_image(2, 2);
    let state = IconState {
        name: "0".to_string(),
        dirs: 1,
        frames: 1,
        images: vec![image.clone()],
        delay: None,
        rewind: false,
    };
    let config = BitmaskSliceReconstruct { extract: vec!["0".to_string()], bespoke: None, set: None };
    let good = Icon { width: 2, height: 2, states: vec![state.clone()] };
    assert!(config.can_reconstruct(&good));
    let bad = Icon { width: 3, height: 2, states: vec![state.clone()] };
    assert!(!config.can_reconstruct(&bad));
    let huge = Icon { width: u32::MAX, height: 2, states: vec![] };
    assert!(config.can_reconstruct(&huge));
    let mut two = state.clone();
    two.frames = 2;
    assert!(!config.can_reconstruct(&Icon { width: 2, height: 2, states: vec![two] }));
}

#[test]
fn a_state_tells_whether_its_frames_can_be_folded() {
    let image = empty_image(1, 1);
    let mut state = IconState {
        name: "0".to_string(),
        dirs: 1,
        frames: 2,
        images: vec![image.clone(), image.clone()],
        delay: Some(vec![u32::MAX - 1, 1]),
        rewind: false,
    };
    assert!(can_dedupe_frames(&state));
    state.delay = Some(vec![u32::MAX, 1]);
    assert!(!can_dedupe_frames(&state));
    state.frames = 1;
    assert!(can_dedupe_frames(&state));
    state.frames = 2;
    state.delay = None;
    assert!(can_dedupe_frames(&state));
    state.delay = Some(vec![1, 1]);
    state.dirs = 0;
    assert!(!can_dedupe_frames(&state));
}

#[test]
fn named_icons_and_outputs() {
    let image = empty_image(1, 1);
    let named = NamedIcon::new("DEBUGOUT", "CORNERS", OutputImage::Png(image.clone()));
    assert_eq!(named.path_hint.as_deref(), Some("DEBUGOUT"));
    assert_eq!(named.name_hint.as_deref(), Some("CORNERS"));
    assert_eq!(named.image, OutputImage::Png(image.clone()));
    let icon = Icon { width: 1, height: 1, states: vec![] };
    let plain = NamedIcon::from_icon(Icon { width: 1, height: 1, states: vec![] });
    assert_eq!(plain.path_hint, None);
    assert_eq!(plain.name_hint, None);
    assert_eq!(plain.image, OutputImage::Dmi(icon));
    assert_eq!(OutputImage::Png(image).extension(), "png");
    assert_eq!(plain.image.extension(), "dmi");
    assert_eq!(OutputText::PngConfig(String::new()).extension(), "toml");
    assert_eq!(OutputText::DmiConfig(String::new()).extension(), "toml");
}
