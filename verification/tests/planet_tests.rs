use starfarer::planet::loads::SquareLoads;
use starfarer::planet::square::{cell_corners, dist_is_defined, lod_subdivision, MapID, ADJACENCIES};
use starfarer::planet::{
    advance_update_frame, config_index, model_action, needs_reload, plan_updates, square_ids, LoadConfig, LoadDegree, LoadLevel,
    ModelAction, UPDATE_PERIOD,
};
use starfarer::terrain::triangle;
use starfarer::terrain::triangulation::{
    triangulation, Triangulation, EDGE_POINTS, TRIANGULATION_COUNTS, TRIANGULATION_DATA,
};

fn id(face: u8, map_row: u8, map_col: u8) -> MapID {
    MapID { face, map_row, map_col }
}

#[test]
fn dist_on_one_face_is_chebyshev() {
    assert_eq!(MapID::dist(id(0, 1, 2), id(0, 4, 0), 8), 3);
    assert_eq!(MapID::dist(id(3, 7, 7), id(3, 0, 1), 8), 7);
}

#[test]
fn dist_reads_rows_as_signed_bytes() {
    // Row 255 reads as -1, one row away from row 0.
    assert_eq!(MapID::dist(id(2, 255, 0), id(2, 0, 0), 8), 1);
}

#[test]
fn dist_across_an_edge() {
    // Face 5 lies beyond the top edge of face 0; face 0 lies beyond the
    // right edge of face 5.
    assert_eq!(MapID::dist(id(0, 2, 3), id(5, 1, 4), 8), 3 + (8 - 1 - 1) + 1);
}

#[test]
fn dist_between_opposite_faces_is_unbounded() {
    assert_eq!(MapID::dist(id(0, 0, 0), id(1, 0, 0), 8), i32::MAX);
    assert_eq!(MapID::dist(id(2, 3, 3), id(3, 3, 3), 8), i32::MAX);
}

#[test]
fn dist_is_symmetric_and_zero_on_itself() {
    let squares = [id(0, 2, 3), id(5, 1, 4), id(2, 0, 7), id(4, 6, 1), id(3, 5, 5)];
    for a in squares.iter() {
        assert_eq!(MapID::dist(*a, *a, 8), 0);
        for b in squares.iter() {
            assert_eq!(MapID::dist(*a, *b, 8), MapID::dist(*b, *a, 8));
        }
    }
}

#[test]
fn adjacency_is_symmetric() {
    for f in 0..6usize {
        assert!(!ADJACENCIES[f].contains(&(f as u8)));
        for g in 0..6usize {
            assert_eq!(ADJACENCIES[f].contains(&(g as u8)), ADJACENCIES[g].contains(&(f as u8)));
        }
    }
}

#[test]
fn edge_dist_per_edge() {
    let a = id(0, 2, 3);
    assert_eq!(a.edge_dist(0, 8), 3);
    assert_eq!(a.edge_dist(1, 8), 5);
    assert_eq!(a.edge_dist(2, 8), 4);
    assert_eq!(a.edge_dist(3, 8), 2);
}

#[test]
fn lod_subdivision_halves_at_low_degree() {
    assert_eq!(LoadDegree::High.shift(), 0);
    assert_eq!(LoadDegree::Low.shift(), 1);
    assert_eq!(lod_subdivision(16, LoadDegree::High), 16);
    assert_eq!(lod_subdivision(16, LoadDegree::Low), 8);
    assert_eq!(lod_subdivision(7, LoadDegree::Low), 3);
}

#[test]
fn cell_corners_go_round_the_cell() {
    assert_eq!(cell_corners(4, 1, 2), [7, 8, 13, 12]);
    assert_eq!(cell_corners(1, 0, 0), [0, 1, 3, 2]);
}

#[test]
fn model_action_by_distance() {
    let config = LoadConfig { low_dist: 4, high_dist: 2 };
    assert_eq!(model_action(1, &config, LoadLevel::Unloaded), ModelAction::LoadHigh);
    assert_eq!(model_action(2, &config, LoadLevel::Low), ModelAction::LoadHigh);
    assert_eq!(model_action(1, &config, LoadLevel::High), ModelAction::Keep);
    assert_eq!(model_action(3, &config, LoadLevel::High), ModelAction::LoadLow);
    assert_eq!(model_action(4, &config, LoadLevel::Low), ModelAction::Keep);
    assert_eq!(model_action(5, &config, LoadLevel::High), ModelAction::Unload);
    assert_eq!(model_action(i32::MAX, &config, LoadLevel::Unloaded), ModelAction::Unload);
}

#[test]
fn update_frame_wraps_every_period() {
    assert_eq!(UPDATE_PERIOD, 8);
    assert_eq!(advance_update_frame(0), (1, false));
    assert_eq!(advance_update_frame(7), (0, true));
    assert_eq!(advance_update_frame(254), (7, false));
}

#[test]
fn reload_only_when_something_changed() {
    let a = id(1, 2, 3);
    assert!(needs_reload(None, a, 0));
    assert!(!needs_reload(Some((a, 0)), a, 0));
    assert!(needs_reload(Some((a, 1)), a, 0));
    assert!(needs_reload(Some((id(1, 2, 4), 0)), a, 0));
}

#[test]
fn square_ids_face_by_face() {
    let ids = square_ids(2);
    assert_eq!(ids.len(), 24);
    assert_eq!(ids[0], id(0, 0, 0));
    assert_eq!(ids[1], id(0, 0, 1));
    assert_eq!(ids[2], id(0, 1, 0));
    assert_eq!(ids[4], id(1, 0, 0));
    assert_eq!(ids[23], id(5, 1, 1));
    assert_eq!(square_ids(0).len(), 0);
    assert_eq!(square_ids(1).len(), 6);
}

#[test]
fn triangle_row_and_offset() {
    assert_eq!(triangle::MapID::new(0, 0).row_and_offset(), (0, 0));
    assert_eq!(triangle::MapID::new(3, 10).row_and_offset(), (3, 1));
    assert_eq!(triangle::MapID::new(3, 9).row_and_offset(), (3, 0));
    assert_eq!(triangle::MapID::new(19, 224).row_and_offset(), (14, 28));
}

#[test]
fn triangulation_constructors_pad_with_zeros() {
    let t = Triangulation::new0();
    assert_eq!((t.data, t.tri_count), ([0; 9], 0));
    let t = Triangulation::new1([2, 1, 3]);
    assert_eq!((t.data, t.tri_count), ([2, 1, 3, 0, 0, 0, 0, 0, 0], 1));
    let t = Triangulation::new2([1, 2, 3, 0, 3, 4]);
    assert_eq!((t.data, t.tri_count), ([1, 2, 3, 0, 3, 4, 0, 0, 0], 2));
    let t = Triangulation::new3([1, 7, 8, 8, 0, 1, 8, 4, 0]);
    assert_eq!((t.data, t.tri_count), ([1, 7, 8, 8, 0, 1, 8, 4, 0], 3));
}

#[test]
fn triangulation_table_lookup() {
    let t = triangulation(3);
    assert_eq!((t.data, t.tri_count), ([1, 2, 3, 0, 3, 4, 0, 0, 0], 2));
    let t = triangulation(11);
    assert_eq!((t.data, t.tri_count), ([1, 7, 8, 8, 0, 1, 8, 4, 0], 3));
    assert_eq!(triangulation(0).tri_count, 0);
    assert_eq!(triangulation(63).tri_count, 0);
}

#[test]
fn every_triangulation_is_well_formed() {
    for case in 0..64usize {
        let t = triangulation(case);
        assert_eq!(t.data, TRIANGULATION_DATA[case]);
        assert_eq!(t.tri_count, TRIANGULATION_COUNTS[case]);
        assert!(t.tri_count <= 3);
        for k in 0..9 {
            if k < 3 * t.tri_count {
                assert!(t.data[k] < EDGE_POINTS);
            } else {
                assert_eq!(t.data[k], 0);
            }
        }
    }
}

#[test]
fn planet_plans_each_square() {
    let config = LoadConfig { low_dist: 2, high_dist: 0 };
    let squares = [
        (id(0, 0, 0), LoadLevel::Unloaded),
        (id(0, 0, 2), LoadLevel::High),
        (id(0, 2, 1), LoadLevel::Low),
        (id(0, 3, 3), LoadLevel::Low),
        (id(1, 0, 0), LoadLevel::Low),
    ];
    assert_eq!(
        plan_updates(id(0, 0, 0), &squares, 4, &config),
        vec![ModelAction::LoadHigh, ModelAction::LoadLow, ModelAction::Keep, ModelAction::Unload, ModelAction::Unload]
    );
    assert!(plan_updates(id(0, 0, 0), &[], 4, &config).is_empty());
}

#[test]
fn load_configuration_by_height() {
    assert_eq!(config_index(&[true, true]), 0);
    assert_eq!(config_index(&[false, true]), 1);
    assert_eq!(config_index(&[false, false]), 1);
    assert_eq!(config_index(&[false]), 0);
}

#[test]
fn square_loads_follow_the_viewer() {
    let mut loads = SquareLoads::new(square_ids(2));
    for _ in 0..7 {
        assert!(!loads.next_frame());
    }
    assert!(loads.next_frame());
    let config = LoadConfig { low_dist: 1, high_dist: 0 };
    let builds = loads.decide(id(0, 0, 0), 0, &config, 2);
    assert_eq!(
        builds,
        vec![
            (0, LoadDegree::High),
            (1, LoadDegree::Low),
            (2, LoadDegree::Low),
            (3, LoadDegree::Low),
            (13, LoadDegree::Low),
            (15, LoadDegree::Low),
            (22, LoadDegree::Low),
            (23, LoadDegree::Low),
        ]
    );
    for (index, degree) in builds.iter() {
        loads.finish(*index, *degree);
    }
    assert_eq!(loads.level(0), LoadLevel::High);
    assert_eq!(loads.level(13), LoadLevel::Low);
    assert_eq!(loads.level(4), LoadLevel::Unloaded);
    // The same viewer and configuration: nothing to decide.
    assert!(loads.decide(id(0, 0, 0), 0, &config, 2).is_empty());
    // Another configuration with the same distances: everything is kept.
    assert!(loads.decide(id(0, 0, 0), 1, &config, 2).is_empty());
    assert_eq!(loads.level(0), LoadLevel::High);
    // From the opposite face every square of face 0 is dropped.
    let builds = loads.decide(id(1, 0, 0), 1, &config, 2);
    assert_eq!(builds[0], (4, LoadDegree::High));
    assert_eq!(loads.level(0), LoadLevel::Unloaded);
    assert_eq!(loads.level(3), LoadLevel::Unloaded);
}

#[test]
fn planet_update_unloads_squares_beyond_both_distances() {
    let mut loads = SquareLoads::new(square_ids(2));
    for _ in 0..7 {
        assert!(!loads.next_frame());
    }
    assert!(loads.next_frame());
    let wide = LoadConfig { low_dist: 1, high_dist: 0 };
    for (index, degree) in loads.decide(id(0, 0, 0), 0, &wide, 2).iter() {
        loads.finish(*index, *degree);
    }
    assert_eq!(loads.level(3), LoadLevel::Low);
    for _ in 0..7 {
        assert!(!loads.next_frame());
    }
    assert!(loads.next_frame());
    let narrow = LoadConfig { low_dist: 0, high_dist: 0 };
    let builds = loads.decide(id(0, 1, 1), 0, &narrow, 2);
    assert_eq!(builds, vec![(3, LoadDegree::High)]);
    // Squares 0 to 2 are one step away: beyond both distances.
    assert_eq!(loads.level(0), LoadLevel::Unloaded);
    assert_eq!(loads.level(1), LoadLevel::Unloaded);
    assert_eq!(loads.level(2), LoadLevel::Unloaded);
    // The viewer's own square keeps its model until the new one is built.
    assert_eq!(loads.level(3), LoadLevel::Low);
}

#[test]
fn distance_definedness_is_tested() {
    assert!(dist_is_defined(id(0, 0, 0), id(0, 1, 1)));
    assert!(dist_is_defined(id(0, 0, 0), id(0, 127, 127)));
    // Rows 0 and 128 read as 0 and -128: a difference outside a signed byte.
    assert!(!dist_is_defined(id(0, 0, 0), id(0, 128, 0)));
    assert!(!dist_is_defined(id(0, 0, 0), id(0, 0, 128)));
    assert!(dist_is_defined(id(1, 0, 0), id(2, 0, 0)));
    assert!(!dist_is_defined(id(6, 0, 0), id(2, 0, 0)));
}
