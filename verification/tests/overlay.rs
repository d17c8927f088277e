use debug_lines::geometry::{
    aabb_lines, box_outline_corners, grid_half_count, grid_lines, grid_step_count, marker_lines,
    ray_lines, Corner, LinePoint, MarkerTips, Pos3, RaySegment,
};
use debug_lines::lines::{DebugLines, DrawItem};

type Lines = DebugLines<(i32, i32), i32, u8>;

fn p(x: i32, y: i32, z: i32) -> Pos3<i32> {
    Pos3 { x, y, z }
}

fn lp(x: i32, y: i32, z: i32, color: u8) -> LinePoint<i32, u8> {
    LinePoint { pos: p(x, y, z), color }
}

fn tips() -> MarkerTips<i32> {
    MarkerTips {
        x_plus: p(1, 0, 0),
        x_minus: p(-1, 0, 0),
        y_plus: p(0, 1, 0),
        y_minus: p(0, -1, 0),
        z_plus: p(0, 0, 1),
        z_minus: p(0, 0, -1),
    }
}

fn ray(sx: i32, ex: i32) -> RaySegment<i32, u8> {
    RaySegment { start: p(sx, 0, 0), end: p(ex, 0, 0), start_color: 7, end_color: 8 }
}

#[test]
fn toggle_flips_and_restores() {
    let mut lines = Lines::new();
    assert!(lines.draw_enabled());
    lines.toggle();
    assert!(!lines.draw_enabled());
    lines.toggle();
    assert!(lines.draw_enabled());
}

#[test]
fn render_when_disabled_does_nothing() {
    let mut lines = Lines::new();
    let _m = lines.colored_marker((0, 0), tips(), 3);
    lines.toggle();
    assert!(lines.render().is_none());
    lines.toggle();
    let frame = lines.render().unwrap();
    assert!(frame.upload.is_some());
}

#[test]
fn empty_overlay_uploads_nothing() {
    let mut lines = Lines::new();
    let frame = lines.render().unwrap();
    assert!(frame.upload.is_none());
    assert!(frame.draws.is_empty());
}

#[test]
fn marker_draws_one_segment_per_axis() {
    let v = marker_lines(tips(), 1u8, 2u8, 3u8);
    assert_eq!(
        v,
        vec![
            lp(1, 0, 0, 1),
            lp(-1, 0, 0, 1),
            lp(0, 1, 0, 2),
            lp(0, -1, 0, 2),
            lp(0, 0, 1, 3),
            lp(0, 0, -1, 3),
        ]
    );
}

#[test]
fn box_outline_has_twelve_distinct_edges() {
    let corners = box_outline_corners();
    assert_eq!(corners.len(), 24);
    let key = |c: &Corner| (c.x_max as u8) * 4 + (c.y_max as u8) * 2 + (c.z_max as u8);
    let mut edges: Vec<(u8, u8)> = Vec::new();
    for k in 0..12 {
        let a = key(&corners[2 * k]);
        let b = key(&corners[2 * k + 1]);
        let diff = a ^ b;
        assert!(diff == 1 || diff == 2 || diff == 4, "segment {} is not an edge", k);
        edges.push((a.min(b), a.max(b)));
    }
    edges.sort();
    edges.dedup();
    assert_eq!(edges.len(), 12);
}

#[test]
fn aabb_lines_select_corners() {
    let v = aabb_lines(p(0, 0, 0), p(10, 20, 30), 9u8);
    assert_eq!(v.len(), 24);
    assert_eq!(v[0], lp(0, 0, 0, 9));
    assert_eq!(v[1], lp(10, 0, 0, 9));
    assert_eq!(v[6], lp(0, 20, 30, 9));
    assert_eq!(v[7], lp(10, 20, 30, 9));
    assert_eq!(v[23], lp(10, 0, 30, 9));
}

#[test]
fn ray_lines_start_then_end() {
    let v = ray_lines(&vec![ray(0, 5), ray(1, 6)]);
    assert_eq!(v, vec![lp(0, 0, 0, 7), lp(5, 0, 0, 8), lp(1, 0, 0, 7), lp(6, 0, 0, 8)]);
    assert!(ray_lines::<i32, u8>(&Vec::new()).is_empty());
}

#[test]
fn grid_half_counts() {
    assert_eq!(grid_half_count(10), 5);
    assert_eq!(grid_half_count(11), 5);
    assert_eq!(grid_half_count(3), 1);
    assert_eq!(grid_half_count(1), 1);
    assert_eq!(grid_half_count(0), 1);
    assert_eq!(grid_half_count(-1), 1);
    assert_eq!(grid_half_count(-5), -2);
    assert_eq!(grid_half_count(i32::MIN), -(1 << 30));
    assert_eq!(grid_half_count(i32::MAX), (1 << 30) - 1);
    assert_eq!(grid_step_count(10), 11);
    assert_eq!(grid_step_count(0), 3);
    assert_eq!(grid_step_count(-5), 0);
}

#[test]
fn grid_lines_cross_the_whole_grid() {
    let steps = vec![-2, -1, 0, 1, 2];
    let v = grid_lines(&steps, 0, 4u8);
    assert_eq!(v.len(), 20);
    assert_eq!(v[0], lp(-2, -2, 0, 4));
    assert_eq!(v[1], lp(-2, 2, 0, 4));
    assert_eq!(v[8], lp(2, -2, 0, 4));
    assert_eq!(v[9], lp(2, 2, 0, 4));
    assert_eq!(v[10], lp(-2, -2, 0, 4));
    assert_eq!(v[11], lp(2, -2, 0, 4));
    assert_eq!(v[19], lp(2, 2, 0, 4));
    assert!(grid_lines::<i32, u8>(&Vec::new(), 0, 4).is_empty());
}

#[test]
fn grid_marker_of_count_ten() {
    let mut lines = Lines::new();
    let n = grid_step_count(10);
    let h = grid_half_count(10);
    let steps: Vec<i32> = (0..n as i32).map(|k| (k - h) * 3).collect();
    let g = lines.grid_marker((0, 0), 10, steps, 0, 1);
    assert_eq!(g.id, 1);
    assert_eq!(lines.containers()[0].data.len(), 44);
    assert_eq!(lines.containers()[0].data[0], lp(-15, -15, 0, 1));
    assert_eq!(lines.containers()[0].data[1], lp(-15, 15, 0, 1));
}

#[test]
fn ids_are_handed_out_in_order() {
    let mut lines = Lines::new();
    let a = lines.aabb_marker((0, 0), p(0, 0, 0), p(1, 1, 1), 1);
    let g = lines.grid_marker((0, 0), 0, vec![-1, 0, 1], 0, 1);
    let b = lines.aabb_marker((0, 0), p(0, 0, 0), p(1, 1, 1), 1);
    assert_eq!((a.id, g.id, b.id), (1, 2, 3));
    assert!(lines.has_free_id());
}

#[test]
fn render_uploads_all_containers_in_order() {
    let mut lines = Lines::new();
    let _m = lines.marker((1, 0), tips(), 1, 2, 3);
    let _r = lines.ray_markers((2, 0), vec![ray(0, 5)]);
    let _a = lines.aabb_marker((3, 0), p(0, 0, 0), p(1, 1, 1), 4);
    assert!(lines.fits_draw_range());
    let frame = lines.render().unwrap();
    let upload = frame.upload.unwrap();
    assert_eq!(upload.recreate_capacity, Some(32));
    assert_eq!(upload.vertices.len(), 32);
    assert_eq!(upload.vertices[0], lp(1, 0, 0, 1));
    assert_eq!(upload.vertices[6], lp(0, 0, 0, 7));
    assert_eq!(upload.vertices[7], lp(5, 0, 0, 8));
    assert_eq!(upload.vertices[8], lp(0, 0, 0, 4));
    assert_eq!(
        frame.draws,
        vec![
            DrawItem { model: (1, 0), starting_index: 0, index_count: 6 },
            DrawItem { model: (2, 0), starting_index: 6, index_count: 2 },
            DrawItem { model: (3, 0), starting_index: 8, index_count: 24 },
        ]
    );
    // Nothing changed: nothing to upload, same draw calls.
    let again = lines.render().unwrap();
    assert!(again.upload.is_none());
    assert_eq!(again.draws, frame.draws);
}

#[test]
fn moving_a_marker_reuploads_without_new_buffer() {
    let mut lines = Lines::new();
    let m = lines.colored_marker((1, 0), tips(), 5);
    let a = lines.aabb_marker((3, 0), p(0, 0, 0), p(1, 1, 1), 4);
    let _ = lines.render().unwrap();
    m.update_position(&mut lines, (9, 9));
    a.update_isometry(&mut lines, (8, 8));
    let frame = lines.render().unwrap();
    let upload = frame.upload.unwrap();
    assert_eq!(upload.recreate_capacity, None);
    assert_eq!(upload.vertices.len(), 30);
    assert_eq!(frame.draws[0].model, (9, 9));
    assert_eq!(frame.draws[1].model, (8, 8));
    assert_eq!(frame.draws[1].starting_index, 6);
}

#[test]
fn released_markers_leave_the_buffer() {
    let mut lines = Lines::new();
    let m = lines.colored_marker((1, 0), tips(), 5);
    let g = lines.grid_marker((2, 0), 1, vec![-1, 0, 1], 0, 6);
    let _ = lines.render().unwrap();
    m.release(&mut lines);
    let frame = lines.render().unwrap();
    let upload = frame.upload.unwrap();
    assert_eq!(upload.recreate_capacity, None);
    assert_eq!(upload.vertices.len(), 12);
    assert_eq!(frame.draws, vec![DrawItem { model: (2, 0), starting_index: 0, index_count: 12 }]);
    g.release(&mut lines);
    let frame = lines.render().unwrap();
    assert!(frame.upload.unwrap().vertices.is_empty());
    assert!(frame.draws.is_empty());
}

#[test]
fn growing_overlay_recreates_buffer() {
    let mut lines = Lines::new();
    let _m = lines.colored_marker((1, 0), tips(), 5);
    let first = lines.render().unwrap();
    assert_eq!(first.upload.unwrap().recreate_capacity, Some(6));
    let _a = lines.aabb_marker((3, 0), p(0, 0, 0), p(1, 1, 1), 4);
    let second = lines.render().unwrap();
    assert_eq!(second.upload.unwrap().recreate_capacity, Some(30));
}

#[test]
fn moving_the_first_ray_keeps_colors() {
    let mut lines = Lines::new();
    let r = lines.ray_markers((0, 0), vec![ray(0, 5), ray(1, 6)]);
    assert!(r.can_move_ray(&lines));
    r.update_ray_pos_and_dir(&mut lines, p(3, 3, 3), p(4, 4, 4));
    let data = &lines.containers()[0].data;
    assert_eq!(data[0], lp(3, 3, 3, 7));
    assert_eq!(data[1], lp(4, 4, 4, 8));
    assert_eq!(data[2], lp(1, 0, 0, 7));
    r.update_isometry(&mut lines, (5, 5));
    assert_eq!(lines.containers()[0].isometry, (5, 5));
    let empty = lines.ray_markers((0, 0), Vec::new());
    assert!(!empty.can_move_ray(&lines));
    empty.release(&mut lines);
    r.release(&mut lines);
    assert!(lines.containers().is_empty());
}

#[test]
fn grid_marker_moves() {
    let mut lines = Lines::new();
    let g = lines.grid_marker((0, 0), 2, vec![-1, 0, 1], 0, 6);
    g.update_isometry(&mut lines, (4, 2));
    assert_eq!(lines.containers()[0].isometry, (4, 2));
}

#[test]
fn odd_number_of_toggles_turns_drawing_off() {
    let mut lines = Lines::new();
    let _m = lines.colored_marker((0, 0), tips(), 3);
    for _ in 0..3 {
        lines.toggle();
    }
    assert!(lines.render().is_none());
    lines.toggle();
    assert_eq!(lines.render().unwrap().draws.len(), 1);
}

#[test]
fn counts_with_same_half_give_same_grid() {
    assert_eq!(grid_half_count(4), grid_half_count(5));
    assert_eq!(grid_step_count(4), grid_step_count(5));
    assert_eq!(grid_step_count(-1), grid_step_count(3));
    let mut previous = 0;
    for count in 0..40 {
        let n = grid_step_count(count);
        assert!(n >= previous);
        previous = n;
    }
}

#[test]
fn colored_marker_has_marker_geometry() {
    let plain = marker_lines(tips(), 1u8, 2u8, 3u8);
    let colored = marker_lines(tips(), 9u8, 9u8, 9u8);
    for i in 0..6 {
        assert_eq!(plain[i].pos, colored[i].pos);
        assert_eq!(colored[i].color, 9);
    }
}

#[test]
fn refresh_settles_and_never_shrinks_buffer() {
    let mut lines = Lines::new();
    let a = lines.aabb_marker((3, 0), p(0, 0, 0), p(1, 1, 1), 4);
    let first = lines.check_if_invalidated_and_reinitialize().unwrap();
    assert_eq!(first.recreate_capacity, Some(24));
    assert!(lines.check_if_invalidated_and_reinitialize().is_none());
    a.release(&mut lines);
    let second = lines.check_if_invalidated_and_reinitialize().unwrap();
    assert_eq!(second.recreate_capacity, None);
    assert!(second.vertices.is_empty());
}
