use hypnagogic_core::util::adjacency::Adjacency;
use hypnagogic_core::util::corners::{Corner, CornerSet, CornerType, Side};
use hypnagogic_core::util::delays::{format_delay, text_delays};
use hypnagogic_core::util::directions::{Direction, DirectionStrategy};
use hypnagogic_core::util::repeat_for;
use hypnagogic_core::util::text::{decimal_string, join, split_at_hyphen};

#[test]
fn sides_have_engine_bits_and_names() {
    assert_eq!(Side::North.byond_dir(), 1);
    assert_eq!(Side::South.byond_dir(), 2);
    assert_eq!(Side::East.byond_dir(), 4);
    assert_eq!(Side::West.byond_dir(), 8);
    assert_eq!(Side::dmi_cardinals(), [Side::South, Side::North, Side::East, Side::West]);
    assert!(Side::North.is_vertical());
    assert!(Side::South.is_vertical());
    assert!(!Side::East.is_vertical());
    assert!(!Side::West.is_vertical());
    assert_eq!(Side::North.name(), "north");
    assert_eq!(Side::West.name(), "west");
    assert_eq!(Side::from_name("south"), Some(Side::South));
    assert_eq!(Side::from_name("east"), Some(Side::East));
    assert_eq!(Side::from_name("up"), None);
}

#[test]
fn corners_have_sides_and_engine_bits() {
    assert_eq!(Corner::NorthEast.sides_of_corner(), (Side::East, Side::North));
    assert_eq!(Corner::SouthEast.sides_of_corner(), (Side::East, Side::South));
    assert_eq!(Corner::SouthWest.sides_of_corner(), (Side::West, Side::South));
    assert_eq!(Corner::NorthWest.sides_of_corner(), (Side::West, Side::North));
    assert_eq!(Corner::NorthEast.byond_dir(), 5);
    assert_eq!(Corner::SouthEast.byond_dir(), 6);
    assert_eq!(Corner::SouthWest.byond_dir(), 10);
    assert_eq!(Corner::NorthWest.byond_dir(), 9);
    assert_eq!(
        Corner::all(),
        [Corner::NorthEast, Corner::SouthEast, Corner::SouthWest, Corner::NorthWest]
    );
    for (place, corner) in Corner::all().iter().enumerate() {
        assert_eq!(corner.ordinal(), place);
    }
}

#[test]
fn corner_types_have_names() {
    assert_eq!(CornerType::Convex.name(), "convex");
    assert_eq!(CornerType::TopLeftOuter.name(), "top_left_outer");
    assert_eq!(CornerType::BottomRightInner.debug_name(), "BottomRightInner");
    assert_eq!(CornerType::from_name("flat"), Some(CornerType::Flat));
    assert_eq!(CornerType::from_name("bottom_left_outer"), Some(CornerType::BottomLeftOuter));
    assert_eq!(CornerType::from_name("Flat"), None);
    assert_eq!(CornerType::Convex.ordinal(), 0);
    assert_eq!(CornerType::TopLeftOuter.ordinal(), 12);
}

#[test]
fn corner_sets_list_their_adjacencies() {
    assert_eq!(CornerSet::Cardinal.possible_bit_states(), 16);
    assert_eq!(CornerSet::StandardDiagonal.possible_bit_states(), 256);
    assert_eq!(CornerSet::CornerDiagonal.possible_bit_states(), 256);
    let cardinal: Vec<u16> =
        CornerSet::Cardinal.output_adjacencies().iter().map(|a| a.bits()).collect();
    assert_eq!(cardinal, (0u16..16).collect::<Vec<u16>>());
    let diagonal: Vec<u16> =
        CornerSet::StandardDiagonal.output_adjacencies().iter().map(|a| a.bits()).collect();
    assert_eq!(diagonal, (0u16..256).collect::<Vec<u16>>());
    let corner: Vec<u16> =
        CornerSet::CornerDiagonal.output_adjacencies().iter().map(|a| a.bits()).collect();
    assert_eq!(corner.len(), 264);
    assert_eq!(&corner[0..12], &[0, 1, 2, 3, 4, 5, 5 | 256, 6, 6 | 256, 7, 8, 9]);
    for inner in [5u16, 6, 9, 10] {
        let at = corner.iter().position(|bits| *bits == inner).unwrap();
        assert_eq!(corner[at + 1], inner | 256);
    }
    for outer in [21u16, 38, 74, 137] {
        let at = corner.iter().position(|bits| *bits == outer).unwrap();
        assert_eq!(corner[at + 1], outer | 512);
    }
    assert_eq!(corner.iter().filter(|bits| **bits >= 256).count(), 8);
    assert_eq!(CornerSet::default(), CornerSet::Cardinal);
    assert_eq!(CornerSet::CornerDiagonal.name(), "CornerDiagonal");
}

#[test]
fn corner_sets_list_their_corner_types() {
    assert_eq!(
        CornerSet::Cardinal.corners_used(),
        vec![
            CornerType::Convex,
            CornerType::Concave,
            CornerType::Horizontal,
            CornerType::Vertical
        ]
    );
    assert_eq!(CornerSet::StandardDiagonal.corners_used().len(), 5);
    assert_eq!(CornerSet::StandardDiagonal.corners_used()[4], CornerType::Flat);
    assert_eq!(CornerSet::CornerDiagonal.corners_used().len(), 13);
    assert_eq!(CornerSet::CornerDiagonal.corners_used()[12], CornerType::TopLeftOuter);
}

#[test]
fn directions_in_engine_order() {
    assert_eq!(Direction::STANDARD, Direction::S);
    assert_eq!(
        Direction::dmi_cardinals(),
        [Direction::S, Direction::N, Direction::E, Direction::W]
    );
    assert_eq!(
        Direction::dmi_all(),
        [
            Direction::S,
            Direction::N,
            Direction::E,
            Direction::W,
            Direction::SE,
            Direction::SW,
            Direction::NE,
            Direction::NW
        ]
    );
    assert!(Direction::W.is_cardinal());
    assert!(!Direction::NW.is_cardinal());
    assert_eq!(Direction::SE.name(), "SE");
}

#[test]
fn strategies_list_their_directions() {
    assert_eq!(DirectionStrategy::Standard.input_vec(), vec![Direction::S]);
    assert_eq!(DirectionStrategy::Standard.output_vec(), vec![Direction::S]);
    assert_eq!(DirectionStrategy::Cardinals.input_vec(), Direction::dmi_cardinals().to_vec());
    assert_eq!(DirectionStrategy::Cardinals.output_vec(), Direction::dmi_cardinals().to_vec());
    assert_eq!(DirectionStrategy::CardinalsRotated.input_vec(), vec![Direction::S]);
    assert_eq!(
        DirectionStrategy::CardinalsRotated.output_vec(),
        Direction::dmi_cardinals().to_vec()
    );
    assert_eq!(DirectionStrategy::All.input_vec(), Direction::dmi_all().to_vec());
    assert_eq!(DirectionStrategy::All.output_vec(), Direction::dmi_all().to_vec());
    assert_eq!(
        DirectionStrategy::Cardinals.input_positions(),
        vec![(Direction::S, 0), (Direction::N, 1), (Direction::E, 2), (Direction::W, 3)]
    );
    assert_eq!(DirectionStrategy::CardinalsRotated.input_positions(), vec![(Direction::S, 0)]);
    assert_eq!(DirectionStrategy::default(), DirectionStrategy::Standard);
    assert_eq!(DirectionStrategy::CardinalsRotated.name(), "CardinalsRotated");
}

#[test]
fn count_to_strategy_round_trips() {
    assert_eq!(DirectionStrategy::count_to_strategy(1), Some(DirectionStrategy::Standard));
    assert_eq!(DirectionStrategy::count_to_strategy(4), Some(DirectionStrategy::Cardinals));
    assert_eq!(DirectionStrategy::count_to_strategy(8), Some(DirectionStrategy::All));
    for count in [0u8, 2, 3, 5, 6, 7, 9, 16, 255] {
        assert_eq!(DirectionStrategy::count_to_strategy(count), None);
    }
    for strategy in
        [DirectionStrategy::Standard, DirectionStrategy::Cardinals, DirectionStrategy::All]
    {
        let count = strategy.output_vec().len() as u8;
        assert_eq!(DirectionStrategy::count_to_strategy(count), Some(strategy));
    }
    assert_eq!(
        DirectionStrategy::count_to_strategy(
            DirectionStrategy::CardinalsRotated.output_vec().len() as u8
        ),
        Some(DirectionStrategy::Cardinals)
    );
}

#[test]
fn decimal_strings() {
    assert_eq!(decimal_string(0), "0");
    assert_eq!(decimal_string(7), "7");
    assert_eq!(decimal_string(10), "10");
    assert_eq!(decimal_string(255), "255");
    assert_eq!(decimal_string(4294967295), "4294967295");
    assert_eq!(decimal_string(u128::MAX), u128::MAX.to_string());
}

#[test]
fn texts_split_at_the_first_hyphen() {
    assert_eq!(split_at_hyphen("wall-15"), (true, "wall".to_string(), "15".to_string()));
    assert_eq!(split_at_hyphen("wall-5-d"), (true, "wall".to_string(), "5-d".to_string()));
    assert_eq!(split_at_hyphen("15"), (false, "15".to_string(), "15".to_string()));
    assert_eq!(split_at_hyphen("-x"), (true, "".to_string(), "x".to_string()));
    assert_eq!(split_at_hyphen("x-"), (true, "x".to_string(), "".to_string()));
    assert_eq!(split_at_hyphen(""), (false, "".to_string(), "".to_string()));
    assert_eq!(split_at_hyphen("é-ü"), (true, "é".to_string(), "ü".to_string()));
}

#[test]
fn texts_join_with_a_separator() {
    let parts = vec!["a".to_string(), "b".to_string(), "c".to_string()];
    assert_eq!(join(&parts, ", "), "a, b, c");
    assert_eq!(join(&vec!["a".to_string()], ", "), "a");
    assert_eq!(join(&vec![], ", "), "");
    assert_eq!(join(&vec!["".to_string(), "".to_string()], "\n"), "\n");
}

#[test]
fn delays_are_written_in_ticks() {
    assert_eq!(format_delay(0), "0");
    assert_eq!(format_delay(1000), "1");
    assert_eq!(format_delay(2500), "2.5");
    assert_eq!(format_delay(100), "0.1");
    assert_eq!(format_delay(1250), "1.25");
    assert_eq!(format_delay(1), "0.001");
    assert_eq!(format_delay(10), "0.01");
    assert_eq!(format_delay(1005), "1.005");
    assert_eq!(format_delay(1050), "1.05");
    assert_eq!(format_delay(12000), "12");
    assert_eq!(text_delays(&vec![1000, 2500, 100], ""), "[1, 2.5, 0.1]");
    assert_eq!(text_delays(&vec![1000, 2000], "ds"), "[1ds, 2ds]");
    assert_eq!(text_delays(&vec![], "ds"), "[]");
    assert_eq!(text_delays(&vec![4000], ""), "[4]");
}

#[test]
fn repeat_for_cycles_or_cuts() {
    assert_eq!(repeat_for(&vec![1, 2, 3], 7), vec![1, 2, 3, 1, 2, 3, 1]);
    assert_eq!(repeat_for(&vec![1, 2, 3], 2), vec![1, 2]);
    assert_eq!(repeat_for(&vec![1, 2, 3], 0), vec![]);
    assert_eq!(repeat_for(&vec![], 5), vec![]);
    assert_eq!(repeat_for(&vec![9], 3), vec![9, 9, 9]);
}

#[test]
fn adjacency_of_a_rotated_strategy_is_listed() {
    for bits in 0u16..16 {
        let adjacency = Adjacency::from_bits(bits).unwrap();
        for direction in Direction::dmi_cardinals() {
            assert!(adjacency.rotate_to(direction).bits() < 16);
        }
    }
}
