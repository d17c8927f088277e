use vstd::prelude::*;

verus! {

/// A position given by its three coordinates.
#[derive(Clone, Copy, Debug, PartialEq, Eq)]
pub struct Pos3<S> {
    pub x: S,
    pub y: S,
    pub z: S,
}

/// One vertex of a line list: a position and a color.
#[derive(Clone, Copy, Debug, PartialEq, Eq)]
pub struct LinePoint<S, C> {
    pub pos: Pos3<S>,
    pub color: C,
}

/// A corner of an axis-aligned box: for each axis, whether the corner takes
/// the box's maximum (`true`) or its minimum (`false`) on that axis.
#[derive(Clone, Copy, Debug, PartialEq, Eq)]
pub struct Corner {
    pub x_max: bool,
    pub y_max: bool,
    pub z_max: bool,
}

pub open spec fn corner(x_max: bool, y_max: bool, z_max: bool) -> Corner {
    Corner { x_max, y_max, z_max }
}

/// The outline of a box as a line list: twelve segments, two corners each.
pub open spec fn box_outline() -> Seq<Corner> {
    seq![
        corner(false, false, false), corner(true, false, false),
        corner(false, false, false), corner(false, true, false),
        corner(false, false, false), corner(false, false, true),
        corner(false, true, true), corner(true, true, true),
        corner(true, false, true), corner(true, true, true),
        corner(true, true, false), corner(true, true, true),
        corner(false, true, false), corner(true, true, false),
        corner(false, true, false), corner(false, true, true),
        corner(false, false, true), corner(false, true, true),
        corner(false, false, true), corner(true, false, true),
        corner(true, false, false), corner(true, true, false),
        corner(true, false, false), corner(true, false, true),
    ]
}

/// The position of corner `c` of the box spanned by `mins` and `maxs`.
pub open spec fn corner_pos<S>(mins: Pos3<S>, maxs: Pos3<S>, c: Corner) -> Pos3<S> {
    Pos3 {
        x: if c.x_max { maxs.x } else { mins.x },
        y: if c.y_max { maxs.y } else { mins.y },
        z: if c.z_max { maxs.z } else { mins.z },
    }
}

/// Two corners are joined by an edge of the box when they differ on exactly one axis.
pub open spec fn is_box_edge(c: Corner, d: Corner) -> bool {
    ||| (c.x_max != d.x_max && c.y_max == d.y_max && c.z_max == d.z_max)
    ||| (c.x_max == d.x_max && c.y_max != d.y_max && c.z_max == d.z_max)
    ||| (c.x_max == d.x_max && c.y_max == d.y_max && c.z_max != d.z_max)
}

/// The segments `(a, b)` and `(c, d)` join the same two corners.
pub open spec fn same_segment(a: Corner, b: Corner, c: Corner, d: Corner) -> bool {
    (a == c && b == d) || (a == d && b == c)
}

/// The position in the outline of the segment that joins the edge `(c, d)`.
pub open spec fn outline_segment_of(c: Corner, d: Corner) -> int {
    if c.x_max != d.x_max {
        if !c.y_max && !c.z_max { 0 }
        else if c.y_max && c.z_max { 3 }
        else if c.y_max { 6 }
        else { 9 }
    } else if c.y_max != d.y_max {
        if !c.x_max && !c.z_max { 1 }
        else if c.x_max && c.z_max { 4 }
        else if c.z_max { 8 }
        else { 10 }
    } else {
        if !c.x_max && !c.y_max { 2 }
        else if c.x_max && c.y_max { 5 }
        else if c.y_max { 7 }
        else { 11 }
    }
}

/// The box outline's line list for the box spanned by `mins` and `maxs`.
pub open spec fn box_lines<S, C>(mins: Pos3<S>, maxs: Pos3<S>, color: C) -> Seq<LinePoint<S, C>> {
    box_outline().map_values(|c: Corner| LinePoint { pos: corner_pos(mins, maxs, c), color })
}

/// Segment `k` of the box outline: the corners that it joins.
pub open spec fn outline_segment(k: int) -> (Corner, Corner) {
    (box_outline()[2 * k], box_outline()[2 * k + 1])
}

/// Every segment of the box outline is an edge of the box, and every edge of
/// the box is drawn by exactly one segment of the outline.
pub proof fn lemma_box_outline_draws_each_edge_once()
    ensures
        box_outline().len() == 24,
        forall|k: int|
            0 <= k < 12 ==> is_box_edge(#[trigger] outline_segment(k).0, outline_segment(k).1),
        forall|c: Corner, d: Corner|
            #[trigger] is_box_edge(c, d) ==> 0 <= outline_segment_of(c, d) < 12,
        forall|c: Corner, d: Corner, k: int|
            #![trigger is_box_edge(c, d), outline_segment(k)]
            is_box_edge(c, d) && 0 <= k < 12 ==> (same_segment(
                outline_segment(k).0,
                outline_segment(k).1,
                c,
                d,
            ) <==> k == outline_segment_of(c, d)),
{
    assert forall|k: int| 0 <= k < 12 implies is_box_edge(
        #[trigger] outline_segment(k).0,
        outline_segment(k).1,
    ) && outline_segment_of(outline_segment(k).0, outline_segment(k).1) == k
        && outline_segment_of(outline_segment(k).1, outline_segment(k).0) == k by {
        if k == 0 {} else if k == 1 {} else if k == 2 {} else if k == 3 {}
        else if k == 4 {} else if k == 5 {} else if k == 6 {} else if k == 7 {}
        else if k == 8 {} else if k == 9 {} else if k == 10 {} else {}
    }
    assert forall|c: Corner, d: Corner, k: int|
        #![trigger is_box_edge(c, d), outline_segment(k)]
        is_box_edge(c, d) && 0 <= k < 12 implies (same_segment(
        outline_segment(k).0,
        outline_segment(k).1,
        c,
        d,
    ) <==> k == outline_segment_of(c, d)) by {
        let j = outline_segment_of(c, d);
        assert(0 <= j < 12);
        assert(same_segment(outline_segment(j).0, outline_segment(j).1, c, d)) by {
            if j == 0 {} else if j == 1 {} else if j == 2 {} else if j == 3 {}
            else if j == 4 {} else if j == 5 {} else if j == 6 {} else if j == 7 {}
            else if j == 8 {} else if j == 9 {} else if j == 10 {} else {}
        }
        if same_segment(outline_segment(k).0, outline_segment(k).1, c, d) {
            assert(outline_segment_of(outline_segment(k).0, outline_segment(k).1) == k);
            assert(outline_segment_of(outline_segment(k).1, outline_segment(k).0) == k);
        }
    }
}

/// The corners of the box outline, in drawing order.
pub fn box_outline_corners() -> (r: Vec<Corner>)
    ensures
        r@ == box_outline(),
{
    let mut r: Vec<Corner> = Vec::new();
    r.push(Corner { x_max: false, y_max: false, z_max: false });
    r.push(Corner { x_max: true, y_max: false, z_max: false });
    r.push(Corner { x_max: false, y_max: false, z_max: false });
    r.push(Corner { x_max: false, y_max: true, z_max: false });
    r.push(Corner { x_max: false, y_max: false, z_max: false });
    r.push(Corner { x_max: false, y_max: false, z_max: true });
    r.push(Corner { x_max: false, y_max: true, z_max: true });
    r.push(Corner { x_max: true, y_max: true, z_max: true });
    r.push(Corner { x_max: true, y_max: false, z_max: true });
    r.push(Corner { x_max: true, y_max: true, z_max: true });
    r.push(Corner { x_max: true, y_max: true, z_max: false });
    r.push(Corner { x_max: true, y_max: true, z_max: true });
    r.push(Corner { x_max: false, y_max: true, z_max: false });
    r.push(Corner { x_max: true, y_max: true, z_max: false });
    r.push(Corner { x_max: false, y_max: true, z_max: false });
    r.push(Corner { x_max: false, y_max: true, z_max: true });
    r.push(Corner { x_max: false, y_max: false, z_max: true });
    r.push(Corner { x_max: false, y_max: true, z_max: true });
    r.push(Corner { x_max: false, y_max: false, z_max: true });
    r.push(Corner { x_max: true, y_max: false, z_max: true });
    r.push(Corner { x_max: true, y_max: false, z_max: false });
    r.push(Corner { x_max: true, y_max: true, z_max: false });
    r.push(Corner { x_max: true, y_max: false, z_max: false });
    r.push(Corner { x_max: true, y_max: false, z_max: true });
    assert(r@ =~= box_outline());
    r
}

/// The position of corner `c` of the box spanned by `mins` and `maxs`.
pub fn box_corner<S: Copy>(mins: Pos3<S>, maxs: Pos3<S>, c: Corner) -> (p: Pos3<S>)
    ensures
        p == corner_pos(mins, maxs, c),
{
    Pos3 {
        x: if c.x_max { maxs.x } else { mins.x },
        y: if c.y_max { maxs.y } else { mins.y },
        z: if c.z_max { maxs.z } else { mins.z },
    }
}

/// The line list that outlines the box spanned by `mins` and `maxs`, all in one color.
pub fn aabb_lines<S: Copy, C: Copy>(mins: Pos3<S>, maxs: Pos3<S>, color: C) -> (r: Vec<LinePoint<S, C>>)
    ensures
        r@ == box_lines(mins, maxs, color),
{
    let corners = box_outline_corners();
    let mut r: Vec<LinePoint<S, C>> = Vec::new();
    for i in 0..corners.len()
        invariant
            corners@ == box_outline(),
            r@ =~= box_lines(mins, maxs, color).take(i as int),
    {
        let c = corners[i];
        r.push(LinePoint { pos: box_corner(mins, maxs, c), color });
    }
    assert(r@ =~= box_lines(mins, maxs, color));
    r
}

/// The tips of a point marker: the marker's center moved both ways along each axis.
#[derive(Clone, Copy, Debug, PartialEq, Eq)]
pub struct MarkerTips<S> {
    pub x_plus: Pos3<S>,
    pub x_minus: Pos3<S>,
    pub y_plus: Pos3<S>,
    pub y_minus: Pos3<S>,
    pub z_plus: Pos3<S>,
    pub z_minus: Pos3<S>,
}

/// The line list of a point marker: one segment per axis, x first, then y, then z,
/// each drawn from its plus tip to its minus tip in the color given for its axis.
pub open spec fn marker_points<S, C>(tips: MarkerTips<S>, x_color: C, y_color: C, z_color: C) -> Seq<LinePoint<S, C>> {
    seq![
        LinePoint { pos: tips.x_plus, color: x_color },
        LinePoint { pos: tips.x_minus, color: x_color },
        LinePoint { pos: tips.y_plus, color: y_color },
        LinePoint { pos: tips.y_minus, color: y_color },
        LinePoint { pos: tips.z_plus, color: z_color },
        LinePoint { pos: tips.z_minus, color: z_color },
    ]
}

/// The line list of a point marker, each axis in its own color.
pub fn marker_lines<S: Copy, C: Copy>(tips: MarkerTips<S>, x_color: C, y_color: C, z_color: C) -> (r: Vec<LinePoint<S, C>>)
    ensures
        r@ == marker_points(tips, x_color, y_color, z_color),
{
    let mut r: Vec<LinePoint<S, C>> = Vec::new();
    r.push(LinePoint { pos: tips.x_plus, color: x_color });
    r.push(LinePoint { pos: tips.x_minus, color: x_color });
    r.push(LinePoint { pos: tips.y_plus, color: y_color });
    r.push(LinePoint { pos: tips.y_minus, color: y_color });
    r.push(LinePoint { pos: tips.z_plus, color: z_color });
    r.push(LinePoint { pos: tips.z_minus, color: z_color });
    assert(r@ =~= marker_points(tips, x_color, y_color, z_color));
    r
}

/// One ray: where it starts and ends, and the colors at its two ends.
#[derive(Clone, Copy, Debug, PartialEq, Eq)]
pub struct RaySegment<S, C> {
    pub start: Pos3<S>,
    pub end: Pos3<S>,
    pub start_color: C,
    pub end_color: C,
}

/// The line list of a set of rays: each ray, in order, as its start point then its end point.
pub open spec fn ray_points<S, C>(rays: Seq<RaySegment<S, C>>) -> Seq<LinePoint<S, C>> {
    Seq::new(
        2 * rays.len(),
        |i: int|
            if i % 2 == 0 {
                LinePoint { pos: rays[i / 2].start, color: rays[i / 2].start_color }
            } else {
                LinePoint { pos: rays[i / 2].end, color: rays[i / 2].end_color }
            },
    )
}

/// The line list of a set of rays.
pub fn ray_lines<S: Copy, C: Copy>(rays: &Vec<RaySegment<S, C>>) -> (r: Vec<LinePoint<S, C>>)
    ensures
        r@ == ray_points(rays@),
{
    let mut r: Vec<LinePoint<S, C>> = Vec::new();
    for i in 0..rays.len()
        invariant
            r@ =~= ray_points(rays@).take(2 * i),
    {
        let ray = rays[i];
        r.push(LinePoint { pos: ray.start, color: ray.start_color });
        r.push(LinePoint { pos: ray.end, color: ray.end_color });
        assert(r@ =~= ray_points(rays@).take(2 * (i + 1)));
    }
    assert(r@ =~= ray_points(rays@));
    r
}

/// Half of `count`, rounded toward zero.
pub open spec fn half_toward_zero(count: int) -> int {
    if count >= 0 { count / 2 } else { -((-count) / 2) }
}

/// The number of grid lines on each side of a grid's center line: half the
/// requested count, rounded toward zero, and one where that gives zero.
pub open spec fn grid_half(count: int) -> int {
    if half_toward_zero(count) == 0 { 1 } else { half_toward_zero(count) }
}

/// The number of lines a grid draws along each axis: one at each step from
/// `-half` to `half`, and none where `half` is negative.
pub open spec fn grid_span(count: int) -> int {
    if grid_half(count) >= 0 { 2 * grid_half(count) + 1 } else { 0 }
}

/// The line list of a grid in the plane `z = zero`: first the lines parallel to
/// the y axis, at each step of `steps` along x, then those parallel to the x
/// axis, at each step along y; each line runs from the first step to the last.
pub open spec fn grid_points<S, C>(steps: Seq<S>, zero: S, color: C) -> Seq<LinePoint<S, C>> {
    let n = steps.len() as int;
    Seq::new(
        (4 * n) as nat,
        |i: int|
            {
                let k = (i % (2 * n)) / 2;
                let end = if i % 2 == 0 { steps[0] } else { steps[n - 1] };
                if i < 2 * n {
                    LinePoint { pos: Pos3 { x: steps[k], y: end, z: zero }, color }
                } else {
                    LinePoint { pos: Pos3 { x: end, y: steps[k], z: zero }, color }
                }
            },
    )
}

/// The number of grid lines on each side of the center line, for a requested count.
pub fn grid_half_count(count: i32) -> (h: i32)
    ensures
        h == grid_half(count as int),
{
    let c: i64 = count as i64;
    let t: i64 = if c >= 0 { c / 2 } else { -((-c) / 2) };
    if t == 0 { 1 } else { t as i32 }
}

/// The number of lines that a grid of the requested count draws along each axis.
pub fn grid_step_count(count: i32) -> (n: usize)
    ensures
        n == grid_span(count as int),
{
    let h = grid_half_count(count);
    if h >= 0 { 2 * (h as usize) + 1 } else { 0 }
}

/// The line list of a grid, given the coordinates of its steps along an axis.
pub fn grid_lines<S: Copy, C: Copy>(steps: &Vec<S>, zero: S, color: C) -> (r: Vec<LinePoint<S, C>>)
    ensures
        r@ == grid_points(steps@, zero, color),
{
    let n = steps.len();
    let ghost g = grid_points(steps@, zero, color);
    let mut r: Vec<LinePoint<S, C>> = Vec::new();
    if n == 0 {
        assert(r@ =~= g);
        return r;
    }
    let first = steps[0];
    let last = steps[n - 1];
    for k in 0..n
        invariant
            n == steps.len(),
            n > 0,
            first == steps@[0],
            last == steps@[n - 1],
            g == grid_points(steps@, zero, color),
            r@ =~= g.take(2 * k),
    {
        let s = steps[k];
        r.push(LinePoint { pos: Pos3 { x: s, y: first, z: zero }, color });
        r.push(LinePoint { pos: Pos3 { x: s, y: last, z: zero }, color });
        assert(r@ =~= g.take(2 * (k + 1))) by {
            assert(((2 * k) % (2 * n as int)) / 2 == k) by (nonlinear_arith)
                requires k < n;
            assert(((2 * k + 1) % (2 * n as int)) / 2 == k) by (nonlinear_arith)
                requires k < n;
        }
    }
    for k in 0..n
        invariant
            n == steps.len(),
            n > 0,
            first == steps@[0],
            last == steps@[n - 1],
            g == grid_points(steps@, zero, color),
            r@ =~= g.take(2 * n + 2 * k),
    {
        let s = steps[k];
        r.push(LinePoint { pos: Pos3 { x: first, y: s, z: zero }, color });
        r.push(LinePoint { pos: Pos3 { x: last, y: s, z: zero }, color });
        assert(r@ =~= g.take(2 * n + 2 * (k + 1))) by {
            assert(((2 * n + 2 * k) % (2 * n as int)) / 2 == k) by (nonlinear_arith)
                requires k < n, n > 0;
            assert(((2 * n + 2 * k + 1) % (2 * n as int)) / 2 == k) by (nonlinear_arith)
                requires k < n, n > 0;
        }
    }
    assert(r@ =~= g);
    r
}

/// Every count of -1 or more gives a grid with at least one line on each side
/// of its center line, `2 * half + 1` lines along each axis; every count of
/// -2 or less gives an empty grid.
pub proof fn lemma_grid_span(count: int)
    ensures
        count >= -1 ==> grid_half(count) >= 1 && grid_span(count) == 2 * grid_half(count) + 1,
        count <= -2 ==> grid_half(count) <= -1 && grid_span(count) == 0,
{
}

/// The grid's lines run parallel to the axes, each across the whole grid: line
/// `k` along y stands at step `k` on x and runs from the first step to the
/// last on y, and line `k` along x likewise with the axes swapped.
pub proof fn lemma_grid_lines_axis_parallel<S, C>(steps: Seq<S>, zero: S, color: C)
    requires
        steps.len() > 0,
    ensures
        grid_points(steps, zero, color).len() == 4 * steps.len(),
        forall|i: int| 0 <= i < 4 * steps.len() ==> (#[trigger] grid_points(steps, zero, color)[i]).color == color,
        forall|k: int|
            #![trigger steps[k]]
            0 <= k < steps.len() ==> {
                let g = grid_points(steps, zero, color);
                let n = steps.len() as int;
                &&& g[2 * k].pos == Pos3 { x: steps[k], y: steps[0], z: zero }
                &&& g[2 * k + 1].pos == Pos3 { x: steps[k], y: steps[n - 1], z: zero }
                &&& g[2 * n + 2 * k].pos == Pos3 { x: steps[0], y: steps[k], z: zero }
                &&& g[2 * n + 2 * k + 1].pos == Pos3 { x: steps[n - 1], y: steps[k], z: zero }
            },
{
    let n = steps.len() as int;
    assert forall|k: int| #![trigger steps[k]] 0 <= k < n implies {
        let g = grid_points(steps, zero, color);
        &&& g[2 * k].pos == Pos3 { x: steps[k], y: steps[0], z: zero }
        &&& g[2 * k + 1].pos == Pos3 { x: steps[k], y: steps[n - 1], z: zero }
        &&& g[2 * n + 2 * k].pos == Pos3 { x: steps[0], y: steps[k], z: zero }
        &&& g[2 * n + 2 * k + 1].pos == Pos3 { x: steps[n - 1], y: steps[k], z: zero }
    } by {
        assert(((2 * k) % (2 * n)) / 2 == k) by (nonlinear_arith)
            requires 0 <= k < n;
        assert(((2 * k + 1) % (2 * n)) / 2 == k) by (nonlinear_arith)
            requires 0 <= k < n;
        assert(((2 * n + 2 * k) % (2 * n)) / 2 == k) by (nonlinear_arith)
            requires 0 <= k < n;
        assert(((2 * n + 2 * k + 1) % (2 * n)) / 2 == k) by (nonlinear_arith)
            requires 0 <= k < n;
        assert((2 * k) % 2 == 0 && (2 * k + 1) % 2 == 1);
        assert((2 * n + 2 * k) % 2 == 0 && (2 * n + 2 * k + 1) % 2 == 1);
    }
}

/// A grid's count matters only through its half count: counts with the same
/// half count take the same steps and give the same number of points.
pub proof fn lemma_grid_depends_only_on_half<S, C>(c1: int, c2: int, steps: Seq<S>, zero: S, color: C)
    requires
        grid_half(c1) == grid_half(c2),
        steps.len() == grid_span(c1),
    ensures
        steps.len() == grid_span(c2),
        grid_points(steps, zero, color).len() == 4 * grid_span(c2),
{
}

/// A larger non-negative count never gives fewer grid lines, and so never fewer points.
pub proof fn lemma_grid_span_monotone(c1: int, c2: int)
    requires
        0 <= c1 <= c2,
    ensures
        grid_half(c1) <= grid_half(c2),
        grid_span(c1) <= grid_span(c2),
        4 * grid_span(c1) <= 4 * grid_span(c2),
{
    assert(c1 / 2 <= c2 / 2) by (nonlinear_arith)
        requires 0 <= c1 <= c2;
}

/// A one-colored marker has the geometry of a marker with a color per axis:
/// the same points in the same order, all in the one color.
pub proof fn lemma_colored_marker_same_geometry<S, C>(tips: MarkerTips<S>, x_color: C, y_color: C, z_color: C, color: C)
    ensures
        marker_points(tips, color, color, color).len() == 6,
        marker_points(tips, x_color, y_color, z_color).len() == 6,
        forall|i: int| 0 <= i < 6 ==> {
            &&& (#[trigger] marker_points(tips, color, color, color)[i]).pos
                == marker_points(tips, x_color, y_color, z_color)[i].pos
            &&& marker_points(tips, color, color, color)[i].color == color
        },
{
    assert forall|i: int| 0 <= i < 6 implies {
        &&& (#[trigger] marker_points(tips, color, color, color)[i]).pos
            == marker_points(tips, x_color, y_color, z_color)[i].pos
        &&& marker_points(tips, color, color, color)[i].color == color
    } by {
        if i == 0 {} else if i == 1 {} else if i == 2 {} else if i == 3 {} else if i == 4 {} else {}
    }
}

/// Each ray is drawn as one segment, in the order of the rays: vertex `2i` is
/// exactly ray `i`'s start in its start color, vertex `2i + 1` exactly its end
/// in its end color, and there are no other vertices.
pub proof fn lemma_rays_drawn_start_to_end<S, C>(rays: Seq<RaySegment<S, C>>)
    ensures
        ray_points(rays).len() == 2 * rays.len(),
        forall|i: int|
            #![trigger rays[i]]
            0 <= i < rays.len() ==> {
                &&& ray_points(rays)[2 * i].pos == rays[i].start
                &&& ray_points(rays)[2 * i].color == rays[i].start_color
                &&& ray_points(rays)[2 * i + 1].pos == rays[i].end
                &&& ray_points(rays)[2 * i + 1].color == rays[i].end_color
                &&& ray_points(rays)[2 * i].pos.x == rays[i].start.x
                &&& ray_points(rays)[2 * i].pos.y == rays[i].start.y
                &&& ray_points(rays)[2 * i].pos.z == rays[i].start.z
                &&& ray_points(rays)[2 * i + 1].pos.x == rays[i].end.x
                &&& ray_points(rays)[2 * i + 1].pos.y == rays[i].end.y
                &&& ray_points(rays)[2 * i + 1].pos.z == rays[i].end.z
            },
{
    assert forall|i: int| #![trigger rays[i]] 0 <= i < rays.len() implies {
        &&& ray_points(rays)[2 * i].pos == rays[i].start
        &&& ray_points(rays)[2 * i].color == rays[i].start_color
        &&& ray_points(rays)[2 * i + 1].pos == rays[i].end
        &&& ray_points(rays)[2 * i + 1].color == rays[i].end_color
    } by {
        assert((2 * i) % 2 == 0 && (2 * i) / 2 == i);
        assert((2 * i + 1) % 2 == 1 && (2 * i + 1) / 2 == i);
    }
}

/// The half count of a grid is half the requested count rounded toward zero,
/// or one where that is zero: for a count of 2 or more, `2 * half` is the
/// count or one less, so the grid has `count + 1` lines per axis for an even
/// count and `count` for an odd one; for -1, 0 and 1 the half is 1; for -2 or
/// less, `-2 * half` is `-count` or one less.
pub proof fn lemma_grid_half_is_half_the_count(count: int)
    ensures
        count >= 2 ==> 2 * grid_half(count) <= count <= 2 * grid_half(count) + 1,
        count >= 2 ==> grid_span(count) == if count % 2 == 0 { count + 1 } else { count },
        -1 <= count <= 1 ==> grid_half(count) == 1 && grid_span(count) == 3,
        count <= -2 ==> -2 * grid_half(count) <= -count <= -2 * grid_half(count) + 1,
        count <= -2 ==> grid_span(count) == 0,
{
}

/// Each point of the box outline lies on a corner of the box: on each axis it
/// takes the box's maximum where its corner in the outline says so, and the
/// box's minimum otherwise; all points have the given color.
pub proof fn lemma_box_lines_on_corners<S, C>(mins: Pos3<S>, maxs: Pos3<S>, color: C)
    ensures
        box_lines(mins, maxs, color).len() == 24,
        forall|i: int|
            0 <= i < 24 ==> {
                &&& (#[trigger] box_lines(mins, maxs, color)[i]).color == color
                &&& box_lines(mins, maxs, color)[i].pos.x == if box_outline()[i].x_max { maxs.x } else { mins.x }
                &&& box_lines(mins, maxs, color)[i].pos.y == if box_outline()[i].y_max { maxs.y } else { mins.y }
                &&& box_lines(mins, maxs, color)[i].pos.z == if box_outline()[i].z_max { maxs.z } else { mins.z }
            },
        box_outline()[0] == corner(false, false, false) && box_outline()[1] == corner(true, false, false),
{
}

/// A point marker draws its three axes in order x, y, z, each from its plus
/// tip to its minus tip, each in the color given for its axis.
pub proof fn lemma_marker_axes<S, C>(tips: MarkerTips<S>, x_color: C, y_color: C, z_color: C)
    ensures
        marker_points(tips, x_color, y_color, z_color).len() == 6,
        marker_points(tips, x_color, y_color, z_color)[0].pos == tips.x_plus,
        marker_points(tips, x_color, y_color, z_color)[1].pos == tips.x_minus,
        marker_points(tips, x_color, y_color, z_color)[2].pos == tips.y_plus,
        marker_points(tips, x_color, y_color, z_color)[3].pos == tips.y_minus,
        marker_points(tips, x_color, y_color, z_color)[4].pos == tips.z_plus,
        marker_points(tips, x_color, y_color, z_color)[5].pos == tips.z_minus,
        marker_points(tips, x_color, y_color, z_color)[0].color == x_color,
        marker_points(tips, x_color, y_color, z_color)[1].color == x_color,
        marker_points(tips, x_color, y_color, z_color)[2].color == y_color,
        marker_points(tips, x_color, y_color, z_color)[3].color == y_color,
        marker_points(tips, x_color, y_color, z_color)[4].color == z_color,
        marker_points(tips, x_color, y_color, z_color)[5].color == z_color,
{
}

} // verus!
