use hypnagogic_core::config::blocks::cutters::{
    CutPosition,
    IconSize,
    OutputIconPosition,
    OutputIconSize,
    Positions,
    StringMap,
};
use hypnagogic_core::icon::{Icon, IconState};
use hypnagogic_core::operations::cutters::bitmask_slice::BitmaskSlice;
use hypnagogic_core::operations::error::ProcessorError;
use hypnagogic_core::operations::format_converter::bitmask_to_precut::BitmaskSliceReconstruct;
use hypnagogic_core::operations::format_converter::error::{
    InconsistentDelay,
    InconsistentDirs,
    RestrorationError,
};
use hypnagogic_core::operations::{
    InputIcon,
    OperationMode,
    OutputImage,
    OutputText,
    ProcessorPayload,
};
use hypnagogic_core::raster::Raster;
use hypnagogic_core::util::corners::{CornerSet, CornerType};
use hypnagogic_core::util::directions::DirectionStrategy;

fn tint(width: u32, height: u32, red: u8, green: u8) -> Raster {
    let mut data = Vec::new();
    for _ in 0..(width * height) {
        data.extend_from_slice(&[red, green, 0, 255]);
    }
    Raster::new(width, height, data).unwrap()
}

fn texel(image: &Raster, x: u32, y: u32) -> [u8; 4] {
    let at = 4 * (y * image.width() + x) as usize;
    let data = image.data();
    [data[at], data[at + 1], data[at + 2], data[at + 3]]
}

fn still(name: &str, red: u8) -> IconState {
    IconState {
        name: name.to_string(),
        dirs: 1,
        frames: 1,
        images: vec![tint(2, 2, red, 0)],
        delay: None,
        rewind: false,
    }
}

fn moving(name: &str, red: u8, delays: Vec<u32>) -> IconState {
    let frames = delays.len() as u32;
    IconState {
        name: name.to_string(),
        dirs: 1,
        frames,
        images: (0..frames).map(|frame| tint(2, 2, red, frame as u8)).collect(),
        delay: Some(delays),
        rewind: false,
    }
}

fn extract(names: &[&str]) -> BitmaskSliceReconstruct {
    BitmaskSliceReconstruct {
        extract: names.iter().map(|name| name.to_string()).collect(),
        bespoke: None,
        set: None,
    }
}

fn failure(result: Result<(Raster, String), ProcessorError>) -> RestrorationError {
    match result {
        Err(ProcessorError::RestorationFailed(error)) => error,
        _ => panic!("packing fails"),
    }
}

#[test]
fn states_that_would_be_lost_stop_the_packing() {
    let mut states: Vec<IconState> =
        (0..16).map(|bits| still(&format!("prefix-{}", bits), bits as u8)).collect();
    states.push(still("decoration", 99));
    let icon = Icon { width: 2, height: 2, states };
    let names: Vec<String> = (0..16).map(|bits| bits.to_string()).collect();
    let config = BitmaskSliceReconstruct { extract: names, bespoke: None, set: None };
    assert_eq!(
        failure(config.reconstruct(&icon)),
        RestrorationError::DroppedStates("(decoration)".to_string())
    );
    assert_eq!(
        config.perform_operation(&InputIcon::Dmi(icon), OperationMode::Standard),
        Err(ProcessorError::RestorationFailed(RestrorationError::DroppedStates(
            "(decoration)".to_string()
        )))
    );
}

#[test]
fn states_that_stand_for_an_adjacency_may_be_left_out() {
    let icon = Icon {
        width: 2,
        height: 2,
        states: vec![still("w-0", 1), still("w-7", 2), still("w-5-d", 3), still("w-+9", 4)],
    };
    assert!(extract(&["0"]).reconstruct(&icon).is_ok());
    // without a prefix the text form of an adjacency with an edge mark
    // counts as a name with the prefix 5
    let icon = Icon {
        width: 2,
        height: 2,
        states: vec![still("0", 1), still("7", 2), still("5-d", 3), still("x", 4), still("y-z", 5)],
    };
    assert_eq!(
        failure(extract(&["0"]).reconstruct(&icon)),
        RestrorationError::InconsistentPrefixes("5-d, y-z".to_string())
    );
    let icon = Icon {
        width: 2,
        height: 2,
        states: vec![still("0", 1), still("7", 2), still("1024", 3), still("x", 4), still("y", 5)],
    };
    assert_eq!(
        failure(extract(&["0"]).reconstruct(&icon)),
        RestrorationError::DroppedStates("(1024), (x), (y)".to_string())
    );
    assert!(extract(&["0", "1024", "x", "y"]).reconstruct(&icon).is_ok());
}

#[test]
fn prefixes_must_agree_with_the_first_state() {
    let icon = Icon {
        width: 2,
        height: 2,
        states: vec![still("wall-0", 1), still("door-1", 2), still("2", 3), still("wall-3", 4),
            still("window-4", 5)],
    };
    assert_eq!(
        failure(extract(&["0"]).reconstruct(&icon)),
        RestrorationError::InconsistentPrefixes("door-1, window-4".to_string())
    );
    // without a prefix, names with a hyphen are held against no prefix
    let icon = Icon {
        width: 2,
        height: 2,
        states: vec![still("0", 1), still("wall-1", 2), still("-2", 3)],
    };
    assert_eq!(
        failure(extract(&["0"]).reconstruct(&icon)),
        RestrorationError::InconsistentPrefixes("wall-1".to_string())
    );
}

#[test]
fn an_atlas_holds_a_column_for_each_state_in_listed_order() {
    let icon = Icon {
        width: 2,
        height: 2,
        states: vec![still("wall-0", 10), still("wall-3", 30), still("wall-12", 120),
            still("wall-15", 150), still("wall-7", 70)],
    };
    let (atlas, text) = extract(&["15", "0", "12", "3"]).reconstruct(&icon).unwrap();
    assert_eq!((atlas.width(), atlas.height()), (8, 2));
    for (column, red) in [150u8, 10, 120, 30].iter().enumerate() {
        for y in 0..2 {
            for x in 0..2 {
                assert_eq!(texel(&atlas, 2 * column as u32 + x, y), [*red, 0, 0, 255]);
            }
        }
    }
    assert_eq!(
        text,
        "output_name = \"wall\"\n[icon_size]\nx = 2\ny = 2\n\n[output_icon_size]\nx = 2\ny = \
         2\n\n[cut_pos]\nx = 1\ny = 1\n"
    );
}

#[test]
fn the_payload_wraps_the_atlas_and_its_configuration() {
    let icon = Icon { width: 3, height: 5, states: vec![IconState {
        name: "0".to_string(),
        dirs: 1,
        frames: 1,
        images: vec![tint(3, 5, 8, 9)],
        delay: None,
        rewind: false,
    }] };
    let config = extract(&["0"]);
    let payload =
        config.perform_operation(&InputIcon::Dmi(icon), OperationMode::Standard).unwrap();
    match payload {
        ProcessorPayload::ConfigWrapped(image, text) => {
            assert_eq!(*image, ProcessorPayload::Single(Box::new(OutputImage::Png(tint(3, 5, 8, 9)))));
            assert_eq!(
                *text,
                OutputText::PngConfig(
                    "[icon_size]\nx = 3\ny = 5\n\n[output_icon_size]\nx = 3\ny = 5\n\n[cut_pos]\nx \
                     = 1\ny = 2\n"
                        .to_string()
                )
            );
            assert_eq!(text.extension(), "toml");
        },
        _ => panic!("the payload wraps a configuration"),
    }
    assert_eq!(
        config.perform_operation(&InputIcon::DynamicImage(tint(1, 1, 0, 0)), OperationMode::Debug),
        Err(ProcessorError::DMINotFound)
    );
    assert_eq!(config.verify_config(), Ok(()));
}

#[test]
fn settings_prefabs_and_directions_are_written_down() {
    let four = |name: &str, red: u8| IconState {
        name: name.to_string(),
        dirs: 4,
        frames: 1,
        images: (0..4).map(|direction| tint(2, 2, red, direction)).collect(),
        delay: None,
        rewind: false,
    };
    let icon = Icon {
        width: 2,
        height: 2,
        states: vec![four("door", 1), four("0", 2), four("15", 3), four("gate", 4)],
    };
    let config = BitmaskSliceReconstruct {
        extract: vec!["0".to_string(), "15".to_string()],
        bespoke: Some(StringMap(vec![
            ("gate".to_string(), "3".to_string()),
            ("door".to_string(), "12".to_string()),
        ])),
        set: Some(StringMap(vec![
            ("template".to_string(), "\"bitmask/base\"".to_string()),
            ("smooth".to_string(), "true".to_string()),
        ])),
    };
    let (atlas, text) = config.reconstruct(&icon).unwrap();
    // columns: 0, 15, gate, door; and that four times, once for each direction
    assert_eq!((atlas.width(), atlas.height()), (2 * 4 * 4, 2));
    for direction in 0..4u32 {
        for (column, red) in [2u8, 3, 4, 1].iter().enumerate() {
            let x = 2 * column as u32 + direction * 8;
            assert_eq!(texel(&atlas, x, 0), [*red, direction as u8, 0, 255]);
            assert_eq!(texel(&atlas, x + 1, 1), [*red, direction as u8, 0, 255]);
        }
    }
    assert_eq!(
        text,
        "template = \"bitmask/base\"\nsmooth = true\n\ndirection_strategy = \
         \"Cardinals\"\n\n[prefabs]\n3 = 2\n12 = 3\n\n[icon_size]\nx = 2\ny = \
         2\n\n[output_icon_size]\nx = 2\ny = 2\n\n[cut_pos]\nx = 1\ny = 1\n"
    );
}

#[test]
fn the_animation_is_that_of_the_state_with_the_most_delays() {
    let mut long = moving("0", 1, vec![1000, 2000, 1000]);
    long.rewind = true;
    let icon = Icon {
        width: 2,
        height: 2,
        states: vec![long, moving("15", 2, vec![1000, 2000, 1000]), still("3", 3)],
    };
    let (atlas, text) = extract(&["0", "15", "3"]).reconstruct(&icon).unwrap();
    assert_eq!((atlas.width(), atlas.height()), (6, 6));
    for frame in 0..3u32 {
        assert_eq!(texel(&atlas, 0, 2 * frame), [1, frame as u8, 0, 255]);
        assert_eq!(texel(&atlas, 3, 2 * frame + 1), [2, frame as u8, 0, 255]);
        // the still state lasts as long as the whole animation: a row for each delay
        assert_eq!(texel(&atlas, 4, 2 * frame), [3, 0, 0, 255]);
    }
    assert_eq!(
        text,
        "[animation]\ndelays = [1, 2, 1]\nrewind = true\n\n[icon_size]\nx = 2\ny = \
         2\n\n[output_icon_size]\nx = 2\ny = 2\n\n[cut_pos]\nx = 1\ny = 1\n"
    );
}

#[test]
fn folded_frames_are_laid_out_along_the_animation() {
    let icon = Icon {
        width: 2,
        height: 2,
        states: vec![
            moving("0", 1, vec![1000, 1000, 1000, 1000]),
            moving("15", 2, vec![2000, 2000]),
            moving("3", 3, vec![1000, 3000]),
            moving("12", 4, vec![2000]),
        ],
    };
    let (atlas, text) = extract(&["0", "15", "3", "12"]).reconstruct(&icon).unwrap();
    assert_eq!((atlas.width(), atlas.height()), (8, 8));
    let shown = |column: u32, row: u32| texel(&atlas, 2 * column, 2 * row);
    for row in 0..4 {
        assert_eq!(shown(0, row), [1, row as u8, 0, 255]);
    }
    assert_eq!(shown(1, 0), [2, 0, 0, 255]);
    assert_eq!(shown(1, 1), [2, 0, 0, 255]);
    assert_eq!(shown(1, 2), [2, 1, 0, 255]);
    assert_eq!(shown(1, 3), [2, 1, 0, 255]);
    assert_eq!(shown(2, 0), [3, 0, 0, 255]);
    assert_eq!(shown(2, 1), [3, 1, 0, 255]);
    assert_eq!(shown(2, 3), [3, 1, 0, 255]);
    // a state that is over before the animation leaves rows empty
    assert_eq!(shown(3, 0), [4, 0, 0, 255]);
    assert_eq!(shown(3, 1), [4, 0, 0, 255]);
    assert_eq!(shown(3, 2), [0, 0, 0, 0]);
    assert!(text.starts_with("[animation]\ndelays = [1, 1, 1, 1]\n\n[icon_size]"));
}

#[test]
fn delays_that_do_not_fit_the_animation_are_told() {
    let icon = Icon {
        width: 2,
        height: 2,
        states: vec![
            moving("wall-0", 1, vec![2000, 2000, 2000]),
            moving("wall-15", 2, vec![1000, 5000]),
            moving("wall-3", 3, vec![2000, 4000]),
            moving("wall-12", 4, vec![7000]),
            moving("wall-5", 5, vec![1600, 4400]),
            moving("wall-10", 6, vec![2500, 3500]),
            moving("wall-9", 7, vec![2400, 3600]),
        ],
    };
    let result = extract(&["0", "15", "3", "12", "5", "10", "9"]).reconstruct(&icon);
    assert_eq!(
        failure(result),
        RestrorationError::InconsistentDelays {
            expected: vec![2000, 2000, 2000],
            problems: vec![
                InconsistentDelay { state: "15".to_string(), delays: vec![1000, 5000] },
                InconsistentDelay { state: "12".to_string(), delays: vec![7000] },
                InconsistentDelay { state: "10".to_string(), delays: vec![2500, 3500] },
                InconsistentDelay { state: "9".to_string(), delays: vec![2400, 3600] },
            ],
        }
    );
}

#[test]
fn states_with_other_directions_are_told() {
    let mut four = still("wall-15", 2);
    four.dirs = 4;
    four.images = (0..4).map(|direction| tint(2, 2, 2, direction)).collect();
    let icon = Icon {
        width: 2,
        height: 2,
        states: vec![still("wall-0", 1), four, still("wall-3", 3)],
    };
    assert_eq!(
        failure(extract(&["3", "15", "0"]).reconstruct(&icon)),
        RestrorationError::InconsistentDirs {
            expected: 4,
            problems: vec![
                InconsistentDirs { state: "3".to_string(), dirs: 1 },
                InconsistentDirs { state: "0".to_string(), dirs: 1 },
            ],
        }
    );
}

#[test]
fn nothing_to_pack_gives_an_atlas_without_pixels() {
    let icon = Icon { width: 2, height: 2, states: vec![] };
    let (atlas, text) = extract(&["0"]).reconstruct(&icon).unwrap();
    assert_eq!((atlas.width(), atlas.height()), (0, 2));
    assert_eq!(
        text,
        "[icon_size]\nx = 2\ny = 2\n\n[output_icon_size]\nx = 2\ny = 2\n\n[cut_pos]\nx = 1\ny = 1\n"
    );
}

#[test]
fn cutting_the_packed_atlas_gives_the_icon_again() {
    // an atlas of four tiles of 3 x 3 pixels in which every pixel differs
    let mut data = Vec::new();
    for y in 0..3u8 {
        for x in 0..12u8 {
            data.extend_from_slice(&[x * 20, y * 80, x ^ y, 255]);
        }
    }
    let atlas = Raster::new(12, 3, data).unwrap();
    let mut positions = Positions::new();
    positions.insert(CornerType::Convex, 0);
    positions.insert(CornerType::Concave, 1);
    positions.insert(CornerType::Horizontal, 2);
    positions.insert(CornerType::Vertical, 3);
    let slice = BitmaskSlice {
        output_name: Some("wall".to_string()),
        output_type: CornerSet::Cardinal,
        direction_strategy: DirectionStrategy::Standard,
        icon_size: IconSize { x: 3, y: 3 },
        output_icon_pos: OutputIconPosition { x: 0, y: 0 },
        output_icon_size: OutputIconSize { x: 3, y: 3 },
        positions,
        cut_pos: CutPosition { x: 1, y: 1 },
        animation: None,
        prefabs: None,
        map_icon: None,
    };
    let icon = slice.cut_icon(&atlas);
    assert!(icon.is_well_formed());
    let (packed, text) = extract(&["0", "15", "12", "3"]).reconstruct(&icon).unwrap();
    assert_eq!(packed, atlas);
    assert_eq!(
        text,
        "output_name = \"wall\"\n[icon_size]\nx = 3\ny = 3\n\n[output_icon_size]\nx = 3\ny = \
         3\n\n[cut_pos]\nx = 1\ny = 1\n"
    );
    assert_eq!(slice.cut_icon(&packed), icon);
}

#[test]
fn a_number_of_directions_without_strategy_is_an_error() {
    let two = |name: &str, red: u8| IconState {
        name: name.to_string(),
        dirs: 2,
        frames: 1,
        images: vec![tint(2, 2, red, 0), tint(2, 2, red, 1)],
        delay: None,
        rewind: false,
    };
    let icon = Icon { width: 2, height: 2, states: vec![two("0", 1), two("15", 2)] };
    let config = extract(&["0", "15"]);
    assert!(config.can_reconstruct(&icon));
    assert_eq!(
        config.reconstruct(&icon),
        Err(ProcessorError::ConfigError("no direction strategy has 2 directions".to_string()))
    );
    assert_eq!(
        config.perform_operation(&InputIcon::Dmi(icon), OperationMode::Standard),
        Err(ProcessorError::ConfigError("no direction strategy has 2 directions".to_string()))
    );
    // other directions than the rest are told first
    let icon = Icon { width: 2, height: 2, states: vec![two("0", 1), still("15", 2)] };
    assert_eq!(
        failure(config.reconstruct(&icon)),
        RestrorationError::InconsistentDirs {
            expected: 2,
            problems: vec![InconsistentDirs { state: "15".to_string(), dirs: 1 }],
        }
    );
    let none = IconState {
        name: "0".to_string(),
        dirs: 0,
        frames: 3,
        images: vec![],
        delay: None,
        rewind: false,
    };
    let icon = Icon { width: 2, height: 2, states: vec![none] };
    assert_eq!(
        config.reconstruct(&icon),
        Err(ProcessorError::ConfigError("no direction strategy has 0 directions".to_string()))
    );
}
