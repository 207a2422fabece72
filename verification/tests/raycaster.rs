use raycasting::fixed::SCALE;
use raycasting::game::Game;
use raycasting::grid::{wrap_step, GridMap};
use raycasting::player::{Action, Player};
use raycasting::raycast::{cast_ray, Camera, ColumnRect, RayHit};

fn demo_map() -> GridMap {
    GridMap::new(
        5,
        5,
        vec![
            1, 1, 1, 1, 1, //
            1, 0, 0, 0, 1, //
            1, 0, 1, 0, 1, //
            1, 0, 0, 0, 1, //
            1, 1, 1, 1, 1,
        ],
    )
    .unwrap()
}

fn open_map() -> GridMap {
    GridMap::new(3, 3, vec![0; 9]).unwrap()
}

fn demo_camera() -> Camera {
    Camera::new(960, 480, 0, 660_000, 5, 192).unwrap()
}

#[test]
fn grid_lookup_row_major_and_out_of_range() {
    let m = demo_map();
    assert_eq!(m.cell_at(0, 0), 1);
    assert_eq!(m.cell_at(1, 1), 0);
    assert_eq!(m.cell_at(2, 2), 1);
    assert_eq!(m.cell_at(3, 2), 0);
    assert!(m.is_wall(2, 2));
    assert!(!m.is_wall(1, 3));
    // out of range reads as solid, with field value 1
    assert_eq!(m.cell_at(-1, 0), 1);
    assert_eq!(m.cell_at(0, 5), 1);
    assert!(m.is_wall(5, 0));
}

#[test]
fn grid_new_rejects_wrong_length() {
    assert!(GridMap::new(3, 3, vec![0; 8]).is_none());
    assert!(GridMap::new(0, 3, vec![]).is_none());
    assert!(GridMap::new(3, 3, vec![0; 9]).is_some());
}

#[test]
fn toroidal_wrap_at_edges() {
    // stepping past width-1 lands on 0; stepping below 0 lands on width-1
    assert_eq!(wrap_step(4, true, 5), 0);
    assert_eq!(wrap_step(0, false, 5), 4);
    assert_eq!(wrap_step(2, true, 5), 3);
    assert_eq!(wrap_step(3, false, 5), 2);
}

#[test]
fn axis_ray_end_to_end_scenario() {
    // 5x5 demo map, player at (1.2, 1.2), ray straight along -x
    // (the camera_x == 0 ray of heading (-1, 0), plane (0, 0.66)):
    // hit on the x axis at cell (0, 1), perpendicular distance exactly 0.2.
    let m = demo_map();
    let hit = cast_ray(&m, 1_200_000, 1_200_000, -SCALE, 0, 5).unwrap();
    assert_eq!(
        hit,
        RayHit { map_x: 0, map_y: 1, side_on_y: false, value: 1, perp_dist: 200_000 }
    );
}

#[test]
fn axis_ray_positive_direction_distance() {
    // ray straight along +x from (1.2, 1.2): wall at cell (4, 1), whose near
    // face is at x = 4.0, so the distance is exactly 2.8 map units.
    let m = demo_map();
    let hit = cast_ray(&m, 1_200_000, 1_200_000, SCALE, 0, 5).unwrap();
    assert_eq!(
        hit,
        RayHit { map_x: 4, map_y: 1, side_on_y: false, value: 1, perp_dist: 2_800_000 }
    );
}

#[test]
fn y_side_hit_is_dimmed_side() {
    // a ray dominated by -y crosses a y grid line first: side_on_y is true
    let m = demo_map();
    let hit = cast_ray(&m, 1_200_000, 1_200_000, -100, -SCALE, 5).unwrap();
    assert_eq!(
        hit,
        RayHit { map_x: 1, map_y: 0, side_on_y: true, value: 1, perp_dist: 200_000 }
    );
}

#[test]
fn depth_budget_exhaustion_reports_no_hit() {
    // an all-empty toroidal map never produces a hit, whatever the budget
    let m = open_map();
    assert!(cast_ray(&m, 1_500_000, 1_500_000, SCALE, 0, 7).is_none());
    assert!(cast_ray(&m, 1_500_000, 1_500_000, -SCALE, 250, 200).is_none());
    // and a zero budget performs no step at all, even next to a wall
    let walls = demo_map();
    assert!(cast_ray(&walls, 1_200_000, 1_200_000, -SCALE, 0, 0).is_none());
}

#[test]
fn rotation_preserves_heading_magnitude() {
    let m = open_map();
    let mut p = Player::new(1_500_000, 1_500_000, -SCALE, 0, &m).unwrap();
    let before = p.dir_x as i128 * p.dir_x as i128 + p.dir_y as i128 * p.dir_y as i128;
    p.set_intent(Action::RotateLeft, true);
    p.tick(&m);
    assert_eq!(p.dir_x, -994_521);
    assert_eq!(p.dir_y, -104_528);
    let after = p.dir_x as i128 * p.dir_x as i128 + p.dir_y as i128 * p.dir_y as i128;
    // magnitude preserved within fixed-point tolerance, and never grown
    assert!(after <= before);
    assert!(before - after <= 2_000_000);
}

#[test]
fn rotation_right_inverts_the_angle() {
    let m = open_map();
    let mut p = Player::new(1_500_000, 1_500_000, -SCALE, 0, &m).unwrap();
    p.set_intent(Action::RotateRight, true);
    p.tick(&m);
    assert_eq!(p.dir_x, -994_521);
    assert_eq!(p.dir_y, 104_528);
}

#[test]
fn wall_blocks_the_y_axis_independently() {
    // heading straight at the wall row y = 0: the y move is blocked, the
    // (zero-length) x move is not, and the position is unchanged.
    let m = demo_map();
    let mut p = Player::new(1_200_000, 1_040_000, 0, -SCALE, &m).unwrap();
    p.set_intent(Action::Forward, true);
    p.tick(&m);
    assert_eq!(p.pos_x, 1_200_000);
    assert_eq!(p.pos_y, 1_040_000);
}

#[test]
fn blocked_axis_slides_along_the_wall() {
    // a diagonal heading into the wall row: y is blocked, x still moves
    let m = demo_map();
    let mut p = Player::new(1_500_000, 1_020_000, -700_000, -700_000, &m).unwrap();
    p.set_intent(Action::Forward, true);
    p.tick(&m);
    assert_eq!(p.pos_x, 1_465_000);
    assert_eq!(p.pos_y, 1_020_000);
}

#[test]
fn free_forward_move_advances_both_axes() {
    let m = demo_map();
    let mut p = Player::new(1_500_000, 1_500_000, -700_000, -700_000, &m).unwrap();
    p.set_intent(Action::Forward, true);
    p.tick(&m);
    assert_eq!(p.pos_x, 1_465_000);
    assert_eq!(p.pos_y, 1_465_000);
}

#[test]
fn backward_move_mirrors_forward() {
    let m = demo_map();
    let mut p = Player::new(1_500_000, 1_500_000, -700_000, -700_000, &m).unwrap();
    p.set_intent(Action::Backward, true);
    p.tick(&m);
    assert_eq!(p.pos_x, 1_535_000);
    assert_eq!(p.pos_y, 1_535_000);
}

#[test]
fn press_then_release_before_a_tick_moves_nothing() {
    let m = demo_map();
    let mut p = Player::new(1_200_000, 1_200_000, -SCALE, 0, &m).unwrap();
    p.set_intent(Action::Forward, true);
    p.set_intent(Action::Forward, false);
    assert!(!p.forward);
    assert_eq!(p.pos_x, 1_200_000);
    assert_eq!(p.pos_y, 1_200_000);
    assert_eq!(p.dir_x, -SCALE);
    assert_eq!(p.dir_y, 0);
    // and the following tick is a no-op too: the flag is gone
    p.tick(&m);
    assert_eq!(p.pos_x, 1_200_000);
    assert_eq!(p.pos_y, 1_200_000);
}

#[test]
fn intents_are_last_writer_wins_per_flag() {
    let m = demo_map();
    let mut p = Player::new(1_200_000, 1_200_000, -SCALE, 0, &m).unwrap();
    p.set_intent(Action::Forward, true);
    p.set_intent(Action::Forward, true);
    p.set_intent(Action::Forward, false);
    assert!(!p.forward);
    p.set_intent(Action::RotateLeft, true);
    p.set_intent(Action::Backward, true);
    assert!(p.rotate_left && p.backward && !p.forward);
}

#[test]
fn player_new_rejects_ill_formed_poses() {
    let m = demo_map();
    assert!(Player::new(-1, 1_200_000, SCALE, 0, &m).is_none());
    assert!(Player::new(5_000_000, 1_200_000, SCALE, 0, &m).is_none());
    assert!(Player::new(1_200_000, 1_200_000, 20_000_000, 0, &m).is_none());
    assert!(Player::new(1_200_000, 1_200_000, SCALE, 0, &m).is_some());
}

#[test]
fn camera_new_rejects_ill_formed_views() {
    assert!(Camera::new(960, 480, 0, 660_000, 5, 0).is_none());
    assert!(Camera::new(0, 480, 0, 660_000, 5, 192).is_none());
    assert!(Camera::new(960, 480, 0, 20_000_000, 5, 192).is_none());
    assert!(Camera::new(960, 480, 0, 660_000, 5, 192).is_some());
}

#[test]
fn game_update_without_intent_is_a_no_op() {
    let m = demo_map();
    let p = Player::new(1_200_000, 1_200_000, -SCALE, 0, &m).unwrap();
    let mut g = Game::new(p, m, demo_camera()).unwrap();
    g.update();
    assert_eq!(g.player.pos_x, 1_200_000);
    assert_eq!(g.player.pos_y, 1_200_000);
    assert_eq!(g.player.dir_x, -SCALE);
    assert_eq!(g.player.dir_y, 0);
    assert_eq!(g.camera.plane_x, 0);
    assert_eq!(g.camera.plane_y, 660_000);
}

#[test]
fn camera_plane_rotates_in_lockstep_with_heading() {
    let m = demo_map();
    let p = Player::new(1_200_000, 1_200_000, -SCALE, 0, &m).unwrap();
    let mut g = Game::new(p, m, demo_camera()).unwrap();
    g.pressed(Action::RotateLeft, true);
    g.update();
    assert_eq!(g.player.dir_x, -994_521);
    assert_eq!(g.player.dir_y, -104_528);
    assert_eq!(g.camera.plane_x, -68_988);
    assert_eq!(g.camera.plane_y, 656_383);
}

#[test]
fn rendered_frame_has_one_entry_per_column() {
    let m = demo_map();
    let p = Player::new(1_200_000, 1_200_000, -SCALE, 0, &m).unwrap();
    let g = Game::new(p, m, demo_camera()).unwrap();
    let frame = g.render();
    assert_eq!(frame.len(), 959);
    // the camera_x == 0 column (x = 480) has a ray with an exactly zero y
    // component and is skipped, leaving a background seam
    assert!(frame[479].is_none());
}

#[test]
fn rendered_column_projects_the_wall_slice() {
    // column x = 240: camera_x = -0.5, ray (-1, -0.33), first x step hits the
    // west wall at distance exactly 0.2, so the slice is 480 / 0.2 = 2400
    // pixels tall, centered vertically, one pixel wide.
    let m = demo_map();
    let p = Player::new(1_200_000, 1_200_000, -SCALE, 0, &m).unwrap();
    let g = Game::new(p, m, demo_camera()).unwrap();
    let c = g.camera.render_column(240, &g.player, &g.map).unwrap();
    assert_eq!(
        c,
        ColumnRect {
            x_px: 240,
            y_fp: -960_000_000,
            w_px: 1,
            h_fp: 2_400_000_000,
            dim: false,
        }
    );
    let frame = g.render();
    assert_eq!(frame[239], Some(c));
}

#[test]
fn dda_wraps_toroidally_below_zero() {
    // stepping -x from cell 0 wraps to the far column of a 3x3 map
    let m = GridMap::new(3, 3, vec![0, 0, 0, 0, 0, 1, 0, 0, 0]).unwrap();
    let hit = cast_ray(&m, 500_000, 1_500_000, -SCALE, 0, 5).unwrap();
    assert_eq!(
        hit,
        RayHit { map_x: 2, map_y: 1, side_on_y: false, value: 1, perp_dist: -2_500_000 }
    );
}

#[test]
fn degenerate_distance_keeps_full_screen_height() {
    // a hit reached through the wrap has a non-positive perpendicular
    // distance; the projected slice falls back to the full screen height
    let m = GridMap::new(3, 3, vec![0, 0, 0, 0, 0, 1, 0, 0, 0]).unwrap();
    let p = Player::new(500_000, 1_500_000, -SCALE, 0, &m).unwrap();
    let cam = Camera::new(960, 480, 0, 660_000, 5, 192).unwrap();
    let g = Game::new(p, m, cam).unwrap();
    let c = g.camera.render_column(144, &g.player, &g.map).unwrap();
    assert_eq!(
        c,
        ColumnRect { x_px: 144, y_fp: 0, w_px: 1, h_fp: 480_000_000, dim: false }
    );
}
