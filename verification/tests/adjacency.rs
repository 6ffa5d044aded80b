use hypnagogic_core::util::adjacency::{Adjacency, InvalidAdjacencyError};
use hypnagogic_core::util::corners::{Corner, CornerSet, CornerType, Side};
use hypnagogic_core::util::directions::{Direction, DirectionStrategy};

fn adj(bits: u16) -> Adjacency {
    Adjacency::from_bits(bits).unwrap()
}

#[test]
fn set_flags_vec_test() {
    let adj = Adjacency::n() | Adjacency::s() | Adjacency::w();

    let result = adj.set_flags_vec();

    let expected = [Adjacency::n(), Adjacency::w(), Adjacency::s()];

    assert!(expected.iter().all(|item| result.contains(item)));
}

#[test]
fn set_flags_vec_keeps_the_fixed_order() {
    let all = adj(0x3ff).set_flags_vec();
    let bits: Vec<u16> = all.iter().map(|flag| flag.bits()).collect();
    assert_eq!(bits, vec![1, 2, 4, 8, 16, 32, 64, 128, 256, 512]);
    assert_eq!(Adjacency::empty().set_flags_vec(), vec![]);
    assert_eq!(adj(0x105).set_flags_vec(), vec![adj(1), adj(4), adj(0x100)]);
}

#[test]
fn from_bits_accepts_the_ten_known_bits_only() {
    assert_eq!(Adjacency::from_bits(0).map(|a| a.bits()), Some(0));
    assert_eq!(Adjacency::from_bits(1023).map(|a| a.bits()), Some(1023));
    assert_eq!(Adjacency::from_bits(1024), None);
    assert_eq!(Adjacency::from_bits(0xffff), None);
}

#[test]
fn named_adjacencies_have_their_bits() {
    assert_eq!(Adjacency::n().bits(), 1);
    assert_eq!(Adjacency::s().bits(), 2);
    assert_eq!(Adjacency::e().bits(), 4);
    assert_eq!(Adjacency::w().bits(), 8);
    assert_eq!(Adjacency::ne().bits(), 16);
    assert_eq!(Adjacency::se().bits(), 32);
    assert_eq!(Adjacency::sw().bits(), 64);
    assert_eq!(Adjacency::nw().bits(), 128);
    assert_eq!(Adjacency::inner_edge().bits(), 256);
    assert_eq!(Adjacency::outer_edge().bits(), 512);
    assert_eq!(Adjacency::edges().bits(), 768);
    assert_eq!(Adjacency::cardinals().bits(), 15);
}

#[test]
fn set_operations_on_adjacencies() {
    let a = adj(0b0101);
    let b = adj(0b0110);
    assert_eq!(a.union(b).bits(), 0b0111);
    assert_eq!(a.difference(b).bits(), 0b0001);
    assert!(a.contains(adj(0b0100)));
    assert!(!a.contains(b));
    assert!(a.intersects(b));
    assert!(!a.intersects(adj(0b1010)));
    assert!(!a.intersects(Adjacency::empty()));
    assert!(a.contains(Adjacency::empty()));
}

#[test]
fn sides_and_corners_as_adjacencies() {
    assert_eq!(Adjacency::from_side(Side::North), Adjacency::n());
    assert_eq!(Adjacency::from_side(Side::South), Adjacency::s());
    assert_eq!(Adjacency::from_side(Side::East), Adjacency::e());
    assert_eq!(Adjacency::from_side(Side::West), Adjacency::w());
    assert_eq!(Adjacency::from_corner(Corner::NorthEast), Adjacency::ne());
    assert_eq!(Adjacency::from_corner(Corner::SouthEast), Adjacency::se());
    assert_eq!(Adjacency::from_corner(Corner::SouthWest), Adjacency::sw());
    assert_eq!(Adjacency::from_corner(Corner::NorthWest), Adjacency::nw());
    assert_eq!(Adjacency::from(Side::East), Adjacency::e());
    assert_eq!(Adjacency::from(Corner::SouthWest), Adjacency::sw());
}

#[test]
fn fixed_lists_of_adjacencies() {
    assert_eq!(Adjacency::dmi_cardinals(), [adj(2), adj(1), adj(4), adj(8)]);
    assert_eq!(Adjacency::diagonals(), [adj(16), adj(32), adj(64), adj(128)]);
    assert_eq!(Adjacency::diagonal_cardinals(), vec![adj(5), adj(6), adj(10), adj(9)]);
    assert_eq!(Adjacency::filled_diagonals(), vec![adj(21), adj(38), adj(74), adj(137)]);
}

#[test]
fn corner_sides_are_vertical_then_horizontal() {
    assert_eq!(adj(16).corner_sides(), (adj(1), adj(4)));
    assert_eq!(adj(32).corner_sides(), (adj(2), adj(4)));
    assert_eq!(adj(64).corner_sides(), (adj(2), adj(8)));
    assert_eq!(adj(128).corner_sides(), (adj(1), adj(8)));
    assert_eq!(adj(16 | 256).corner_sides(), (adj(1), adj(4)));
    assert_eq!(adj(128 | 512).corner_sides(), (adj(1), adj(8)));
}

#[test]
fn adjacent_corners_filled_needs_both_sides() {
    assert!(adj(1 | 4).adjacent_corners_filled(adj(16)));
    assert!(!adj(1).adjacent_corners_filled(adj(16)));
    assert!(!adj(4).adjacent_corners_filled(adj(16)));
    assert!(adj(15).adjacent_corners_filled(adj(64)));
}

#[test]
fn orphaned_corners_are_found() {
    assert!(!adj(16).has_no_orphaned_corner());
    assert!(!adj(48).has_no_orphaned_corner());
    assert!(!adj(16 | 1).has_no_orphaned_corner());
    assert!(adj(23).has_no_orphaned_corner());
    assert!(adj(0).has_no_orphaned_corner());
    assert!(adj(15).has_no_orphaned_corner());
    assert!(adj(255).has_no_orphaned_corner());
    assert!(!adj(128 | 8).has_no_orphaned_corner());
    assert!(adj(128 | 8 | 1).ref_has_no_orphaned_corner());
    assert!(!adj(64 | 2).ref_has_no_orphaned_corner());
}

#[test]
fn orphan_free_patterns_are_47_of_256() {
    let count = (0u16..256).filter(|bits| adj(*bits).has_no_orphaned_corner()).count();
    assert_eq!(count, 47);
}

#[test]
fn corner_types_without_edge_marks() {
    let north_east = Corner::NorthEast;
    assert_eq!(adj(0).get_corner_type(north_east), CornerType::Convex);
    assert_eq!(adj(1).get_corner_type(north_east), CornerType::Vertical);
    assert_eq!(adj(4).get_corner_type(north_east), CornerType::Horizontal);
    assert_eq!(adj(5).get_corner_type(north_east), CornerType::Concave);
    assert_eq!(adj(21).get_corner_type(north_east), CornerType::Flat);
    assert_eq!(adj(16).get_corner_type(north_east), CornerType::Convex);
    assert_eq!(adj(5).get_corner_type(Corner::SouthWest), CornerType::Convex);
    assert_eq!(adj(5).get_corner_type(Corner::SouthEast), CornerType::Horizontal);
    assert_eq!(adj(5).get_corner_type(Corner::NorthWest), CornerType::Vertical);
    assert_eq!(adj(15).get_corner_type(Corner::SouthWest), CornerType::Concave);
    assert_eq!(adj(255).get_corner_type(Corner::SouthWest), CornerType::Flat);
}

#[test]
fn corner_types_with_edge_marks() {
    for corner in Corner::all() {
        assert_eq!(adj(6 | 256).get_corner_type(corner), CornerType::BottomRightInner);
        assert_eq!(adj(10 | 256).get_corner_type(corner), CornerType::BottomLeftInner);
        assert_eq!(adj(5 | 256).get_corner_type(corner), CornerType::TopRightInner);
        assert_eq!(adj(9 | 256).get_corner_type(corner), CornerType::TopLeftInner);
        assert_eq!(adj(38 | 512).get_corner_type(corner), CornerType::BottomRightOuter);
        assert_eq!(adj(74 | 512).get_corner_type(corner), CornerType::BottomLeftOuter);
        assert_eq!(adj(21 | 512).get_corner_type(corner), CornerType::TopRightOuter);
        assert_eq!(adj(137 | 512).get_corner_type(corner), CornerType::TopLeftOuter);
        assert_eq!(adj(15 | 256).get_corner_type(corner), CornerType::Convex);
        assert_eq!(adj(256).get_corner_type(corner), CornerType::Convex);
    }
}

#[test]
fn every_corner_type_of_an_emitted_adjacency_is_used() {
    for set in [CornerSet::Cardinal, CornerSet::StandardDiagonal, CornerSet::CornerDiagonal] {
        let used = set.corners_used();
        for adjacency in set.output_adjacencies() {
            for corner in Corner::all() {
                assert!(used.contains(&adjacency.get_corner_type(corner)));
            }
        }
    }
}

#[test]
fn pretty_print_writes_the_neighbours_and_marks_edges() {
    assert_eq!(adj(0).pretty_print(), "0");
    assert_eq!(adj(5).pretty_print(), "5");
    assert_eq!(adj(255).pretty_print(), "255");
    assert_eq!(adj(5 | 256).pretty_print(), "5-d");
    assert_eq!(adj(21 | 512).pretty_print(), "21-d");
    assert_eq!(adj(1023).pretty_print(), "255-d");
    assert_eq!(adj(256).pretty_print(), "0-d");
}

#[test]
fn from_str_reads_numbers_and_the_edge_suffix() {
    assert_eq!(Adjacency::from_str("0"), Ok(adj(0)));
    assert_eq!(Adjacency::from_str("15"), Ok(adj(15)));
    assert_eq!(Adjacency::from_str("255"), Ok(adj(255)));
    assert_eq!(Adjacency::from_str("1023"), Ok(adj(1023)));
    assert_eq!(Adjacency::from_str("+7"), Ok(adj(7)));
    assert_eq!(Adjacency::from_str("007"), Ok(adj(7)));
    assert_eq!(Adjacency::from_str("5-d"), Ok(adj(5 | 256)));
    assert_eq!(Adjacency::from_str("0-d"), Ok(adj(256)));
    assert_eq!(Adjacency::from_str("517-d"), Ok(adj(517)));
    assert_eq!(Adjacency::from_str("261-d"), Ok(adj(261)));
}

#[test]
fn from_str_refuses_other_texts() {
    for text in ["", "-d", "d", "+", "1024", "65536", "99999999999999999999", "12a", "a12",
        " 5", "5 ", "5-", "5d", "d5", "5-d-d", "-5", "decoration", "1_0", "0x10"]
    {
        assert_eq!(Adjacency::from_str(text), Err(InvalidAdjacencyError), "{}", text);
    }
}

#[test]
fn text_form_round_trips_without_outer_edge() {
    for bits in 0u16..512 {
        let adjacency = adj(bits);
        assert_eq!(Adjacency::from_str(&adjacency.pretty_print()), Ok(adjacency));
    }
    assert_eq!(Adjacency::from_str(&adj(21 | 512).pretty_print()), Ok(adj(21 | 256)));
}

#[test]
fn rotate_dir_turns_single_neighbours() {
    let singles = [1u16, 2, 4, 8, 16, 32, 64, 128];
    let half = [2u16, 1, 8, 4, 64, 128, 16, 32];
    let counter = [8u16, 4, 1, 2, 128, 16, 32, 64];
    let clockwise = [4u16, 8, 2, 1, 32, 64, 128, 16];
    for i in 0..8 {
        assert_eq!(adj(singles[i]).rotate_dir(Direction::S), adj(singles[i]));
        assert_eq!(adj(singles[i]).rotate_dir(Direction::N), adj(half[i]));
        assert_eq!(adj(singles[i]).rotate_dir(Direction::E), adj(counter[i]));
        assert_eq!(adj(singles[i]).rotate_dir(Direction::W), adj(clockwise[i]));
    }
    assert_eq!(adj(300).rotate_dir(Direction::S), adj(300));
    for direction in [Direction::S, Direction::N, Direction::E, Direction::W] {
        assert_eq!(adj(256).rotate_dir(direction), adj(256));
        assert_eq!(adj(512).rotate_dir(direction), adj(512));
    }
}

#[test]
fn rotations_undo_each_other() {
    for bits in [1u16, 2, 4, 8, 16, 32, 64, 128, 256, 512] {
        let a = adj(bits);
        assert_eq!(a.rotate_dir(Direction::S), a);
        assert_eq!(a.rotate_dir(Direction::N).rotate_dir(Direction::N), a);
        assert_eq!(a.rotate_dir(Direction::E).rotate_dir(Direction::W), a);
        assert_eq!(a.rotate_dir(Direction::W).rotate_dir(Direction::E), a);
    }
}

#[test]
fn rotate_to_turns_every_neighbour() {
    assert_eq!(adj(1).rotate_to(Direction::N), adj(2));
    assert_eq!(adj(1).rotate_to(Direction::E), adj(8));
    assert_eq!(adj(1).rotate_to(Direction::W), adj(4));
    assert_eq!(adj(1).rotate_to(Direction::S), adj(1));
    assert_eq!(adj(1 | 4 | 16).rotate_to(Direction::N), adj(2 | 8 | 64));
    assert_eq!(adj(1 | 4 | 16).rotate_to(Direction::E), adj(8 | 1 | 128));
    assert_eq!(adj(1 | 4 | 16).rotate_to(Direction::W), adj(4 | 2 | 32));
    assert_eq!(adj(255).rotate_to(Direction::E), adj(255));
    assert_eq!(adj(0).rotate_to(Direction::N), adj(0));
    assert_eq!(adj(0).rotate_to(Direction::NE), adj(0));
    assert_eq!(adj(5 | 256).rotate_to(Direction::S), adj(5 | 256));
    assert_eq!(adj(5 | 256).rotate_to(Direction::N), adj(10 | 256));
    assert_eq!(adj(5 | 256).rotate_to(Direction::E), adj(9 | 256));
    assert_eq!(adj(5 | 256).rotate_to(Direction::W), adj(6 | 256));
    assert_eq!(adj(21 | 512).rotate_to(Direction::N), adj(74 | 512));
    assert_eq!(adj(21 | 512).rotate_to(Direction::E), adj(137 | 512));
    assert_eq!(adj(21 | 512).rotate_to(Direction::W), adj(38 | 512));
    assert_eq!(adj(256).rotate_to(Direction::N), adj(256));
    assert_eq!(adj(0x3ff).rotate_to(Direction::W), adj(0x3ff));
    for bits in 0u16..1024 {
        let a = adj(bits);
        assert_eq!(a.rotate_to(Direction::S), a);
        assert_eq!(a.rotate_to(Direction::N).rotate_to(Direction::N), a);
        assert_eq!(a.rotate_to(Direction::E).rotate_to(Direction::W), a);
        assert_eq!(a.rotate_to(Direction::W).rotate_to(Direction::E), a);
    }
    for set in [CornerSet::Cardinal, CornerSet::StandardDiagonal, CornerSet::CornerDiagonal] {
        let listed = set.output_adjacencies();
        for adjacency in &listed {
            for direction in Direction::dmi_cardinals() {
                assert!(listed.contains(&adjacency.rotate_to(direction)));
            }
        }
    }
    for bits in 0u16..256 {
        let a = adj(bits);
        assert_eq!(a.rotate_to(Direction::N).rotate_to(Direction::N), a);
        assert_eq!(a.rotate_to(Direction::E).rotate_to(Direction::W), a);
        assert_eq!(
            a.has_no_orphaned_corner(),
            a.rotate_to(Direction::E).has_no_orphaned_corner()
        );
    }
}

#[test]
fn rotate_adjacency_only_where_directions_are_rotations() {
    let a = adj(1 | 4);
    assert_eq!(DirectionStrategy::CardinalsRotated.rotate_adjacency(a, Direction::N), adj(2 | 8));
    assert_eq!(DirectionStrategy::Cardinals.rotate_adjacency(a, Direction::N), a);
    assert_eq!(DirectionStrategy::Standard.rotate_adjacency(a, Direction::E), a);
    assert_eq!(DirectionStrategy::All.rotate_adjacency(a, Direction::NE), a);
}
