use torpedo_duel::collision::{
    resolve_collisions, scan_in_range, shared_vehicle_cells, square_in_range, CollisionGrid, CollisionReport, Occupant,
    TorpedoProbe,
};

fn probe(x: i32, y: i32, age_ms: u128) -> TorpedoProbe {
    TorpedoProbe { cell: (x, y), age_ms }
}

#[test]
fn armed_torpedo_on_a_vehicle_hits_it() {
    let torps = vec![probe(300, 300, 501)];
    let report = resolve_collisions((300, 300), (-400, -400), &torps);
    assert_eq!(report, CollisionReport { player_one_hit: true, player_two_hit: false, vehicles_collide: false });
}

#[test]
fn fresh_torpedo_is_harmless() {
    let torps = vec![probe(300, 300, 500)];
    let report = resolve_collisions((300, 300), (-400, -400), &torps);
    assert_eq!(report, CollisionReport { player_one_hit: false, player_two_hit: false, vehicles_collide: false });
    let torps = vec![probe(300, 300, 0), probe(-400, -400, 900)];
    let report = resolve_collisions((300, 300), (-400, -400), &torps);
    assert!(!report.player_one_hit);
    assert!(report.player_two_hit);
}

#[test]
fn torpedo_reach_is_fourteen_cells() {
    let near = vec![probe(314, 286, 1000)];
    assert!(resolve_collisions((300, 300), (0, -900), &near).player_one_hit);
    let far_x = vec![probe(315, 300, 1000)];
    assert!(!resolve_collisions((300, 300), (0, -900), &far_x).player_one_hit);
    let far_y = vec![probe(300, 285, 1000)];
    assert!(!resolve_collisions((300, 300), (0, -900), &far_y).player_one_hit);
    let edge = vec![probe(286, 314, 1000)];
    assert!(resolve_collisions((300, 300), (0, -900), &edge).player_one_hit);
}

#[test]
fn vehicles_collide_within_nineteen_cells() {
    let none: Vec<TorpedoProbe> = vec![];
    assert!(resolve_collisions((0, 0), (19, -19), &none).vehicles_collide);
    assert!(!resolve_collisions((0, 0), (20, 0), &none).vehicles_collide);
    assert!(!resolve_collisions((0, 0), (0, -20), &none).vehicles_collide);
    assert_eq!(
        resolve_collisions((5, 5), (5, 5), &none),
        CollisionReport { player_one_hit: false, player_two_hit: false, vehicles_collide: true }
    );
}

#[test]
fn swapping_players_swaps_their_fates() {
    let torps = vec![probe(100, 100, 600), probe(-50, 40, 700)];
    let a = resolve_collisions((100, 105), (300, 300), &torps);
    let b = resolve_collisions((300, 300), (100, 105), &torps);
    assert!(a.player_one_hit && !a.player_two_hit);
    assert!(!b.player_one_hit && b.player_two_hit);
    assert_eq!(a.vehicles_collide, b.vehicles_collide);
}

#[test]
fn torpedo_hitting_both_vehicles() {
    let torps = vec![probe(0, 0, 501)];
    let report = resolve_collisions((10, 0), (-10, 0), &torps);
    assert_eq!(report, CollisionReport { player_one_hit: true, player_two_hit: true, vehicles_collide: false });
}

#[test]
fn squares_at_the_edge_of_i32() {
    let torps = vec![probe(i32::MAX - 4, i32::MIN + 5, 501), probe(i32::MAX, i32::MAX, 1)];
    let report = resolve_collisions((i32::MAX - 9, i32::MIN + 10), (i32::MIN + 10, i32::MAX - 9), &torps);
    assert!(report.player_one_hit);
    assert!(!report.player_two_hit);
}

#[test]
fn grid_records_only_cells_that_exist() {
    let mut grid = CollisionGrid::new();
    grid.mark(Occupant::Torp(0), (1, 1));
    grid.mark(Occupant::PlayerOne, (1, 1));
    assert!(!grid.detect().player_one_hit);
    grid.mark(Occupant::Torp(1), (1, 1));
    assert!(grid.detect().player_one_hit);
    grid.mark(Occupant::PlayerTwo, (2, 2));
    assert!(!grid.detect().vehicles_collide);
    assert!(!grid.detect().player_two_hit);
    grid.mark(Occupant::PlayerTwo, (1, 1));
    let report = grid.detect();
    assert!(report.vehicles_collide && report.player_two_hit);
}

#[test]
fn grid_squares_overlap_exactly() {
    let mut grid = CollisionGrid::new();
    grid.mark_square(Occupant::PlayerOne, (0, 0), 10);
    grid.mark_square(Occupant::Torp(0), (-15, 0), 5);
    assert!(!grid.detect().player_one_hit);
    grid.mark_square(Occupant::Torp(1), (-14, 9), 5);
    assert!(grid.detect().player_one_hit);
}

#[test]
fn removing_an_unarmed_torpedo_changes_nothing() {
    let with = vec![probe(0, 0, 100), probe(50, 50, 800)];
    let without = vec![probe(50, 50, 800)];
    for (p1, p2) in [((0, 0), (50, 60)), ((60, 60), (-3, 4)), ((500, 500), (-500, -500))] {
        assert_eq!(resolve_collisions(p1, p2, &with), resolve_collisions(p1, p2, &without));
    }
}

#[test]
fn more_torpedoes_never_undo_a_hit() {
    let few = vec![probe(0, 0, 501)];
    let many = vec![probe(0, 0, 501), probe(900, 900, 10_000), probe(-900, 0, 0)];
    let a = resolve_collisions((10, 10), (700, 700), &few);
    let b = resolve_collisions((10, 10), (700, 700), &many);
    assert!(a.player_one_hit && b.player_one_hit);
    assert!(!a.player_two_hit);
}

#[test]
fn shared_cells_count_one_message_each() {
    assert_eq!(shared_vehicle_cells((0, 0), (0, 0)), 400);
    assert_eq!(shared_vehicle_cells((0, 0), (3, -5)), 17 * 15);
    assert_eq!(shared_vehicle_cells((0, 0), (19, 19)), 1);
    assert_eq!(shared_vehicle_cells((0, 0), (20, 0)), 0);
    assert_eq!(shared_vehicle_cells((0, 0), (0, -25)), 0);
    assert_eq!(shared_vehicle_cells((i32::MIN, 0), (i32::MAX, 0)), 0);
    let none: Vec<TorpedoProbe> = vec![];
    for (a, b) in [((0, 0), (19, 2)), ((5, 5), (25, 5)), ((-7, 3), (-7, 3))] {
        assert_eq!(shared_vehicle_cells(a, b) > 0, resolve_collisions(a, b, &none).vehicles_collide);
    }
}

#[test]
fn scan_range_check() {
    assert!(square_in_range((i32::MAX - 9, i32::MIN + 10), 10));
    assert!(!square_in_range((i32::MAX - 8, 0), 10));
    assert!(!square_in_range((0, i32::MIN + 9), 10));
    assert!(!square_in_range((0, 0), -1));
    let torps = vec![probe(i32::MAX, i32::MAX, 10), probe(0, 0, 600)];
    assert!(scan_in_range((0, 0), (100, 100), &torps));
    let torps = vec![probe(i32::MAX, 0, 600)];
    assert!(!scan_in_range((0, 0), (100, 100), &torps));
    assert!(!scan_in_range((i32::MAX, 0), (100, 100), &vec![]));
}
