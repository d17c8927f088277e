use vstd::prelude::*;
use crate::geometry::{
    aabb_lines, box_lines, grid_lines, grid_points, grid_span, marker_lines, marker_points,
    ray_lines, ray_points, LinePoint, MarkerTips, Pos3, RaySegment,
};
use crate::registry::{
    holds_id, index_of, registry_wf, with_isometry, with_segment, without_id, Container,
    ContainerView, RegistryView, SharedDebugLines,
};

verus! {

/// One draw call: the pose to draw with, and the range of the vertex buffer that it draws.
#[derive(Clone, Copy, Debug, PartialEq, Eq)]
pub struct DrawItem<I> {
    pub model: I,
    pub starting_index: i32,
    pub index_count: i32,
}

/// Work for the vertex buffer: whether to recreate it first, and with what
/// capacity, and the vertices to upload into it.
pub struct Upload<S, C> {
    pub recreate_capacity: Option<usize>,
    pub vertices: Vec<LinePoint<S, C>>,
}

pub struct UploadView<S, C> {
    pub recreate_capacity: Option<usize>,
    pub vertices: Seq<LinePoint<S, C>>,
}

impl<S, C> View for Upload<S, C> {
    type V = UploadView<S, C>;

    open spec fn view(&self) -> UploadView<S, C> {
        UploadView { recreate_capacity: self.recreate_capacity, vertices: self.vertices@ }
    }
}

pub open spec fn upload_view<S, C>(u: Option<Upload<S, C>>) -> Option<UploadView<S, C>> {
    match u {
        Some(u) => Some(u@),
        None => None,
    }
}

/// The work of one frame: the buffer upload, if any, then the draw calls.
pub struct Frame<I, S, C> {
    pub upload: Option<Upload<S, C>>,
    pub draws: Vec<DrawItem<I>>,
}

/// What an overlay holds: its containers, the capacity of the vertex buffer
/// (none before the first upload), the draw calls of the last upload, and
/// whether drawing is on.
pub struct LinesView<I, S, C> {
    pub registry: RegistryView<I, S, C>,
    pub buffer_capacity: Option<usize>,
    pub draw_items: Seq<DrawItem<I>>,
    pub draw_enabled: bool,
}

/// The line lists of all containers, one after the other.
pub open spec fn flatten<I, S, C>(s: Seq<ContainerView<I, S, C>>) -> Seq<LinePoint<S, C>>
    decreases s.len(),
{
    if s.len() == 0 {
        Seq::empty()
    } else {
        flatten(s.drop_last()) + s.last().data
    }
}

/// The number of vertices of all containers.
pub open spec fn vertex_total<I, S, C>(s: Seq<ContainerView<I, S, C>>) -> int {
    flatten(s).len() as int
}

/// Where the vertices of container `k` start in the vertex buffer.
pub open spec fn vertex_offset<I, S, C>(s: Seq<ContainerView<I, S, C>>, k: int) -> int {
    flatten(s.take(k)).len() as int
}

/// One draw call per container, in order, each over its container's vertices.
pub open spec fn draw_plan<I, S, C>(s: Seq<ContainerView<I, S, C>>) -> Seq<DrawItem<I>> {
    Seq::new(
        s.len(),
        |k: int|
            DrawItem {
                model: s[k].isometry,
                starting_index: vertex_offset(s, k) as i32,
                index_count: s[k].data.len() as i32,
            },
    )
}

/// A vertex buffer of `capacity` is too small for `total` vertices, or there is none.
pub open spec fn needs_new_buffer(capacity: Option<usize>, total: int) -> bool {
    match capacity {
        Some(c) => c < total,
        None => true,
    }
}

/// The vertex buffer and the draw calls agree with the containers: one draw
/// call per container, over a buffer with room for all their vertices (no
/// buffer only while there are no containers).
pub open spec fn synced<I, S, C>(v: LinesView<I, S, C>) -> bool {
    &&& fits_draw_range(v)
    &&& v.draw_items == draw_plan(v.registry.containers)
    &&& match v.buffer_capacity {
        Some(c) => vertex_total(v.registry.containers) <= c,
        None => v.registry.containers.len() == 0,
    }
}

/// A well-formed overlay: a well-formed registry, no draw calls without a
/// buffer, and, whenever nothing is pending, buffer and draw calls in sync
/// with the containers.
pub open spec fn lines_wf<I, S, C>(v: LinesView<I, S, C>) -> bool {
    &&& registry_wf(v.registry)
    &&& v.buffer_capacity is None ==> v.draw_items.len() == 0
    &&& !v.registry.invalidated ==> synced(v)
}

/// `v` with drawing turned off where it is on, and on where it is off.
pub open spec fn toggled<I, S, C>(v: LinesView<I, S, C>) -> LinesView<I, S, C> {
    LinesView { draw_enabled: !v.draw_enabled, ..v }
}

/// The draw calls of an upload fit the 32-bit indices of the draw calls.
pub open spec fn fits_draw_range<I, S, C>(v: LinesView<I, S, C>) -> bool {
    vertex_total(v.registry.containers) <= i32::MAX
}

/// `new` is `old` with the containers uploaded: where nothing changed since
/// the last upload, nothing happens; otherwise all vertices are uploaded, in
/// container order, into a buffer that is recreated with room for exactly
/// them where the old one is missing or too small, and the draw calls are
/// set to one per container.
pub open spec fn refreshed<I, S, C>(
    old: LinesView<I, S, C>,
    new: LinesView<I, S, C>,
    upload: Option<UploadView<S, C>>,
) -> bool {
    if !old.registry.invalidated {
        upload is None && new == old
    } else {
        let s = old.registry.containers;
        let n = vertex_total(s);
        let recreate = needs_new_buffer(old.buffer_capacity, n);
        &&& fits_draw_range(old)
        &&& upload == Some(UploadView {
            recreate_capacity: if recreate { Some(n as usize) } else { None },
            vertices: flatten(s),
        })
        &&& new == LinesView {
            registry: RegistryView { last_id: old.registry.last_id, invalidated: false, containers: s },
            buffer_capacity: if recreate { Some(n as usize) } else { old.buffer_capacity },
            draw_items: draw_plan(s),
            draw_enabled: old.draw_enabled,
        }
    }
}

/// `new` is `old` with a container of id `id`, pose `isometry` and line list `data` added.
pub open spec fn added<I, S, C>(
    old: LinesView<I, S, C>,
    new: LinesView<I, S, C>,
    id: i32,
    isometry: I,
    data: Seq<LinePoint<S, C>>,
) -> bool {
    &&& id == old.registry.last_id + 1
    &&& new == LinesView {
        registry: RegistryView {
            last_id: id as int,
            invalidated: true,
            containers: old.registry.containers.push(ContainerView { id, isometry, data }),
        },
        buffer_capacity: old.buffer_capacity,
        draw_items: old.draw_items,
        draw_enabled: old.draw_enabled,
    }
}

/// `new` is `old` with its containers replaced by `containers`, marked as changed.
pub open spec fn changed<I, S, C>(
    old: LinesView<I, S, C>,
    new: LinesView<I, S, C>,
    containers: Seq<ContainerView<I, S, C>>,
) -> bool {
    new == LinesView {
        registry: RegistryView { last_id: old.registry.last_id, invalidated: true, containers },
        buffer_capacity: old.buffer_capacity,
        draw_items: old.draw_items,
        draw_enabled: old.draw_enabled,
    }
}

/// Moving the first segment of container `id` is possible: it has one, or there is no such container.
pub open spec fn segment_movable<I, S, C>(s: Seq<ContainerView<I, S, C>>, id: i32) -> bool {
    forall|k: int| 0 <= k < s.len() && #[trigger] s[k].id == id ==> s[k].data.len() >= 2
}

proof fn lemma_flatten_step<I, S, C>(s: Seq<ContainerView<I, S, C>>, k: int)
    requires
        0 <= k < s.len(),
    ensures
        flatten(s.take(k + 1)) == flatten(s.take(k)) + s[k].data,
{
    assert(s.take(k + 1).drop_last() =~= s.take(k));
}

proof fn lemma_flatten_prefix<I, S, C>(s: Seq<ContainerView<I, S, C>>, j: int)
    requires
        0 <= j <= s.len(),
    ensures
        flatten(s.take(j)).len() <= flatten(s).len(),
        flatten(s).take(flatten(s.take(j)).len() as int) == flatten(s.take(j)),
    decreases s.len(),
{
    if j == s.len() {
        assert(s.take(j) =~= s);
    } else {
        let t = s.drop_last();
        assert(s.take(j) =~= t.take(j));
        lemma_flatten_prefix(t, j);
        assert(flatten(s) == flatten(t) + s.last().data);
        assert(flatten(s).take(flatten(s.take(j)).len() as int) =~= flatten(s.take(j)));
    }
}

/// The draw calls of an upload cover the uploaded vertices exactly, in order:
/// the first starts at zero, each starts where the one before it ends, the
/// last ends at the end of the buffer, and each draws exactly the line list
/// of its own container.
pub proof fn lemma_draw_plan_tiles_vertices<I, S, C>(s: Seq<ContainerView<I, S, C>>)
    requires
        vertex_total(s) <= i32::MAX,
    ensures
        draw_plan(s).len() == s.len(),
        vertex_offset(s, 0) == 0,
        vertex_offset(s, s.len() as int) == vertex_total(s),
        forall|k: int| 0 <= k < s.len() ==> {
            &&& #[trigger] draw_plan(s)[k].starting_index == vertex_offset(s, k)
            &&& draw_plan(s)[k].index_count == s[k].data.len()
            &&& draw_plan(s)[k].model == s[k].isometry
            &&& vertex_offset(s, k + 1) == vertex_offset(s, k) + s[k].data.len()
            &&& flatten(s).subrange(vertex_offset(s, k), vertex_offset(s, k + 1)) == s[k].data
        },
{
    assert(s.take(0) =~= Seq::<ContainerView<I, S, C>>::empty());
    assert(s.take(s.len() as int) =~= s);
    assert forall|k: int| 0 <= k < s.len() implies {
        &&& #[trigger] draw_plan(s)[k].starting_index == vertex_offset(s, k)
        &&& draw_plan(s)[k].index_count == s[k].data.len()
        &&& draw_plan(s)[k].model == s[k].isometry
        &&& vertex_offset(s, k + 1) == vertex_offset(s, k) + s[k].data.len()
        &&& flatten(s).subrange(vertex_offset(s, k), vertex_offset(s, k + 1)) == s[k].data
    } by {
        lemma_flatten_step(s, k);
        lemma_flatten_prefix(s, k + 1);
        let f = flatten(s);
        let p = flatten(s.take(k + 1));
        assert(f.take(p.len() as int) == p);
        assert(f.subrange(vertex_offset(s, k), vertex_offset(s, k + 1)) =~= s[k].data) by {
            assert forall|i: int| 0 <= i < s[k].data.len() implies f[vertex_offset(s, k) + i]
                == s[k].data[i] by {
                assert(f[vertex_offset(s, k) + i] == f.take(p.len() as int)[vertex_offset(s, k) + i]);
            }
        }
    }
}

/// Uploading settles the overlay: right after an upload, a second one finds
/// nothing changed, uploads nothing and leaves everything as it is.
pub proof fn lemma_refresh_settles<I, S, C>(
    a: LinesView<I, S, C>,
    b: LinesView<I, S, C>,
    first: Option<UploadView<S, C>>,
    c: LinesView<I, S, C>,
    second: Option<UploadView<S, C>>,
)
    requires
        refreshed(a, b, first),
        refreshed(b, c, second),
    ensures
        !b.registry.invalidated,
        second is None,
        c == b,
{
}

/// After an upload the vertex buffer has room for every uploaded vertex, and
/// it was recreated exactly when the old one was missing or too small.
pub proof fn lemma_upload_fits_buffer<I, S, C>(
    a: LinesView<I, S, C>,
    b: LinesView<I, S, C>,
    u: UploadView<S, C>,
)
    requires
        refreshed(a, b, Some(u)),
    ensures
        u.vertices.len() == vertex_total(a.registry.containers),
        b.buffer_capacity matches Some(capacity) && u.vertices.len() <= capacity,
        (u.recreate_capacity is Some) == (a.buffer_capacity is None || (a.buffer_capacity matches Some(c0) && c0 < u.vertices.len())),
        u.recreate_capacity matches Some(n) ==> n == u.vertices.len() && b.buffer_capacity == Some(n),
        u.recreate_capacity is None ==> b.buffer_capacity == a.buffer_capacity,
        b.draw_items == draw_plan(a.registry.containers),
        b.registry.containers == a.registry.containers,
{
}

/// A new container gets an id that no container of the overlay has, and the
/// overlay stays well formed.
pub proof fn lemma_added_id_is_fresh<I, S, C>(
    a: LinesView<I, S, C>,
    b: LinesView<I, S, C>,
    id: i32,
    isometry: I,
    data: Seq<LinePoint<S, C>>,
)
    requires
        lines_wf(a),
        a.registry.last_id < i32::MAX,
        added(a, b, id, isometry, data),
    ensures
        !holds_id(a.registry.containers, id),
        lines_wf(b),
        index_of(b.registry.containers, id) == a.registry.containers.len(),
{
    let s = b.registry.containers;
    let k = index_of(s, id);
    assert(s[a.registry.containers.len() as int].id == id);
    assert(holds_id(s, id));
    if k < a.registry.containers.len() {
        assert(s[k].id <= a.registry.last_id);
    }
}

/// Releasing a marker right after adding it leaves the overlay's containers
/// as they were before.
pub proof fn lemma_release_undoes_add<I, S, C>(
    a: LinesView<I, S, C>,
    b: LinesView<I, S, C>,
    id: i32,
    isometry: I,
    data: Seq<LinePoint<S, C>>,
    c: LinesView<I, S, C>,
)
    requires
        lines_wf(a),
        a.registry.last_id < i32::MAX,
        added(a, b, id, isometry, data),
        changed(b, c, without_id(b.registry.containers, id)),
    ensures
        c.registry.containers == a.registry.containers,
{
    lemma_added_id_is_fresh(a, b, id, isometry, data);
    assert(holds_id(b.registry.containers, id)) by {
        assert(b.registry.containers[a.registry.containers.len() as int].id == id);
    }
    assert(b.registry.containers.remove(a.registry.containers.len() as int) =~= a.registry.containers);
}

/// Moving a container changes its pose and nothing else: the same containers
/// stay, in the same order, with the same ids and line lists.
pub proof fn lemma_move_keeps_lines<I, S, C>(s: Seq<ContainerView<I, S, C>>, id: i32, isometry: I)
    ensures
        with_isometry(s, id, isometry).len() == s.len(),
        forall|k: int| 0 <= k < s.len() ==> {
            &&& (#[trigger] with_isometry(s, id, isometry)[k]).id == s[k].id
            &&& with_isometry(s, id, isometry)[k].data == s[k].data
            &&& with_isometry(s, id, isometry)[k].isometry == if s[k].id == id { isometry } else { s[k].isometry }
        },
        vertex_total(with_isometry(s, id, isometry)) == vertex_total(s),
        flatten(with_isometry(s, id, isometry)) == flatten(s),
    decreases s.len(),
{
    if s.len() > 0 {
        let t = s.drop_last();
        lemma_move_keeps_lines(t, id, isometry);
        assert(with_isometry(s, id, isometry).drop_last() =~= with_isometry(t, id, isometry));
    }
}

/// Turning drawing off and on again, or on and off again, restores the overlay.
pub proof fn lemma_toggle_twice<I, S, C>(a: LinesView<I, S, C>, b: LinesView<I, S, C>, c: LinesView<I, S, C>)
    requires
        b == toggled(a),
        c == toggled(b),
    ensures
        c == a,
{
}

/// A refresh never shrinks the vertex buffer: where there was one, there is
/// still one afterwards, at least as large.
pub proof fn lemma_capacity_never_shrinks<I, S, C>(
    a: LinesView<I, S, C>,
    b: LinesView<I, S, C>,
    u: Option<UploadView<S, C>>,
)
    requires
        refreshed(a, b, u),
    ensures
        a.buffer_capacity matches Some(c0) ==> (b.buffer_capacity matches Some(c) && c0 <= c),
{
}

/// Whenever nothing is pending, the draw calls are exactly one per container,
/// in order, and the buffer has room for all their vertices.
pub proof fn lemma_settled_overlay_is_in_sync<I, S, C>(v: LinesView<I, S, C>)
    requires
        lines_wf(v),
        !v.registry.invalidated,
    ensures
        v.draw_items == draw_plan(v.registry.containers),
        v.buffer_capacity matches Some(c) ==> vertex_total(v.registry.containers) <= c,
        v.buffer_capacity is None ==> v.registry.containers.len() == 0,
{
}

/// Every change is drawn at the next frame with drawing on: after the frame's
/// refresh nothing is pending, and the draw calls are one per current
/// container, in order, over the vertices that the buffer holds for it.
pub proof fn lemma_frame_draws_current_containers<I, S, C>(
    a: LinesView<I, S, C>,
    b: LinesView<I, S, C>,
    u: Option<UploadView<S, C>>,
)
    requires
        lines_wf(a),
        refreshed(a, b, u),
    ensures
        lines_wf(b),
        !b.registry.invalidated,
        b.registry.containers == a.registry.containers,
        b.draw_items == draw_plan(a.registry.containers),
        fits_draw_range(b),
{
}

/// Two markers added one after the other get different ids, the second one
/// more than the first, and both stay in the overlay.
pub proof fn lemma_successive_markers_distinct<I, S, C>(
    a: LinesView<I, S, C>,
    b: LinesView<I, S, C>,
    id1: i32,
    iso1: I,
    data1: Seq<LinePoint<S, C>>,
    c: LinesView<I, S, C>,
    id2: i32,
    iso2: I,
    data2: Seq<LinePoint<S, C>>,
)
    requires
        added(a, b, id1, iso1, data1),
        added(b, c, id2, iso2, data2),
    ensures
        id2 == id1 + 1,
        c.registry.containers == a.registry.containers.push(ContainerView { id: id1, isometry: iso1, data: data1 }).push(
            ContainerView { id: id2, isometry: iso2, data: data2 },
        ),
{
}

/// The overlay after toggling drawing `k` times.
pub open spec fn toggled_times<I, S, C>(v: LinesView<I, S, C>, k: nat) -> LinesView<I, S, C>
    decreases k,
{
    if k == 0 { v } else { toggled(toggled_times(v, (k - 1) as nat)) }
}

/// Toggling an even number of times restores the overlay; toggling an odd
/// number of times only flips whether drawing is on.
pub proof fn lemma_toggle_many<I, S, C>(v: LinesView<I, S, C>, k: nat)
    ensures
        toggled_times(v, k) == if k % 2 == 0 { v } else { toggled(v) },
        toggled_times(v, k).draw_enabled == (v.draw_enabled == (k % 2 == 0)),
    decreases k,
{
    if k > 0 {
        lemma_toggle_many(v, (k - 1) as nat);
    }
}

/// An overlay of debug lines: the containers of lines to draw, and what the
/// vertex buffer that draws them holds.
pub struct DebugLines<I, S, C> {
    containers: SharedDebugLines<I, S, C>,
    buffer_capacity: Option<usize>,
    draw_items: Vec<DrawItem<I>>,
    draw_enabled: bool,
}

impl<I, S, C> View for DebugLines<I, S, C> {
    type V = LinesView<I, S, C>;

    closed spec fn view(&self) -> LinesView<I, S, C> {
        LinesView {
            registry: self.containers@,
            buffer_capacity: self.buffer_capacity,
            draw_items: self.draw_items@,
            draw_enabled: self.draw_enabled,
        }
    }
}

impl<I, S, C> DebugLines<I, S, C> {
    pub open spec fn wf(&self) -> bool {
        lines_wf(self@)
    }

    /// An empty overlay with drawing on and no vertex buffer yet.
    pub fn new() -> (r: Self)
        ensures
            r.wf(),
            r@ == (LinesView::<I, S, C> {
                registry: RegistryView { last_id: 0, invalidated: false, containers: Seq::empty() },
                buffer_capacity: None,
                draw_items: Seq::empty(),
                draw_enabled: true,
            }),
    {
        let r = DebugLines {
            containers: SharedDebugLines::new(),
            buffer_capacity: None,
            draw_items: Vec::new(),
            draw_enabled: true,
        };
        assert(r@.draw_items =~= Seq::<DrawItem<I>>::empty());
        assert(draw_plan(r@.registry.containers) =~= Seq::<DrawItem<I>>::empty());
        assert(r@.registry.containers =~= Seq::<ContainerView<I, S, C>>::empty());
        r
    }

    /// Turns drawing off where it is on, and on where it is off.
    pub fn toggle(&mut self)
        ensures
            final(self)@ == toggled(old(self)@),
    {
        self.draw_enabled = !self.draw_enabled;
    }

    /// Whether drawing is on.
    pub fn draw_enabled(&self) -> (b: bool)
        ensures
            b == self@.draw_enabled,
    {
        self.draw_enabled
    }

    /// Whether another marker can still be added.
    pub fn has_free_id(&self) -> (b: bool)
        ensures
            b == (self@.registry.last_id < i32::MAX),
    {
        self.containers.has_free_id()
    }

    /// Whether all vertices fit the 32-bit indices of the draw calls.
    pub fn fits_draw_range(&self) -> (b: bool)
        requires
            self.wf(),
        ensures
            b == fits_draw_range(self@),
    {
        let containers = self.containers.containers();
        let ghost s = self@.registry.containers;
        let n = containers.len();
        let limit: usize = 0x7fff_ffff;
        let mut sum: usize = 0;
        for k in 0..n
            invariant
                n == containers@.len(),
                containers@.map_values(|c: Container<I, S, C>| c@) == s,
                s == self@.registry.containers,
                sum == vertex_offset(s, k as int),
                sum <= limit,
                limit == i32::MAX,
        {
            proof {
                lemma_flatten_step(s, k as int);
                assert(containers@[k as int]@ == s[k as int]);
            }
            let len = containers[k].data.len();
            if len > limit - sum {
                proof {
                    lemma_flatten_prefix(s, k + 1);
                    assert(vertex_offset(s, k + 1) == sum + len);
                    assert(vertex_offset(s, k + 1) <= vertex_total(s));
                }
                return false;
            }
            sum = sum + len;
        }
        proof {
            assert(s.take(n as int) =~= s);
        }
        true
    }

    /// The containers, in the order they were added.
    pub fn containers(&self) -> (r: &Vec<Container<I, S, C>>)
        ensures
            r@.map_values(|c: Container<I, S, C>| c@) == self@.registry.containers,
    {
        self.containers.containers()
    }

    fn add_container(&mut self, isometry: I, data: Vec<LinePoint<S, C>>) -> (id: i32)
        requires
            old(self).wf(),
            old(self)@.registry.last_id < i32::MAX,
        ensures
            final(self).wf(),
            added(old(self)@, final(self)@, id, isometry, data@),
    {
        self.containers.new_container(isometry, data)
    }
}

impl<I: Copy, S: Copy, C: Copy> DebugLines<I, S, C> {
    /// Adds a point marker in pose `isometry`, each axis drawn in its own color.
    pub fn marker(&mut self, isometry: I, tips: MarkerTips<S>, x_color: C, y_color: C, z_color: C) -> (m: PointMarker)
        requires
            old(self).wf(),
            old(self)@.registry.last_id < i32::MAX,
        ensures
            final(self).wf(),
            added(old(self)@, final(self)@, m.container_id(), isometry, marker_points(tips, x_color, y_color, z_color)),
    {
        let data = marker_lines(tips, x_color, y_color, z_color);
        let id = self.add_container(isometry, data);
        PointMarker { id }
    }

    /// Adds a point marker in pose `isometry`, all in one color.
    pub fn colored_marker(&mut self, isometry: I, tips: MarkerTips<S>, color: C) -> (m: PointMarker)
        requires
            old(self).wf(),
            old(self)@.registry.last_id < i32::MAX,
        ensures
            final(self).wf(),
            added(old(self)@, final(self)@, m.container_id(), isometry, marker_points(tips, color, color, color)),
    {
        self.marker(isometry, tips, color, color, color)
    }

    /// Adds a set of rays in pose `isometry`.
    pub fn ray_markers(&mut self, isometry: I, rays: Vec<RaySegment<S, C>>) -> (m: RayMarkers)
        requires
            old(self).wf(),
            old(self)@.registry.last_id < i32::MAX,
        ensures
            final(self).wf(),
            added(old(self)@, final(self)@, m.container_id(), isometry, ray_points(rays@)),
    {
        let data = ray_lines(&rays);
        let id = self.add_container(isometry, data);
        RayMarkers { id }
    }

    /// Adds the outline of the box spanned by `mins` and `maxs`, in pose `isometry`.
    pub fn aabb_marker(&mut self, isometry: I, mins: Pos3<S>, maxs: Pos3<S>, color: C) -> (m: AabbMarker)
        requires
            old(self).wf(),
            old(self)@.registry.last_id < i32::MAX,
        ensures
            final(self).wf(),
            added(old(self)@, final(self)@, m.id, isometry, box_lines(mins, maxs, color)),
    {
        let data = aabb_lines(mins, maxs, color);
        let id = self.add_container(isometry, data);
        AabbMarker { id }
    }

    /// Adds a grid in pose `isometry`; `steps` are the coordinates of its lines
    /// along each axis, one for each of the `grid_span(count)` steps.
    pub fn grid_marker(&mut self, isometry: I, count: i32, steps: Vec<S>, zero: S, color: C) -> (m: GridMarker)
        requires
            old(self).wf(),
            old(self)@.registry.last_id < i32::MAX,
            steps.len() == grid_span(count as int),
        ensures
            final(self).wf(),
            added(old(self)@, final(self)@, m.id, isometry, grid_points(steps@, zero, color)),
    {
        let data = grid_lines(&steps, zero, color);
        let id = self.add_container(isometry, data);
        GridMarker { id }
    }

    /// Uploads the containers where anything changed since the last upload.
    pub fn check_if_invalidated_and_reinitialize(&mut self) -> (r: Option<Upload<S, C>>)
        requires
            old(self).wf(),
            old(self)@.registry.invalidated ==> fits_draw_range(old(self)@),
        ensures
            final(self).wf(),
            refreshed(old(self)@, final(self)@, upload_view(r)),
    {
        if !self.containers.is_invalidated() {
            return None;
        }
        let ghost s = self@.registry.containers;
        let mut vertices: Vec<LinePoint<S, C>> = Vec::new();
        let mut items: Vec<DrawItem<I>> = Vec::new();
        let mut offset: i32 = 0;
        {
            let containers = self.containers.containers();
            let n = containers.len();
            for k in 0..n
                invariant
                    n == containers@.len(),
                    containers@.map_values(|c: Container<I, S, C>| c@) == s,
                    vertex_total(s) <= i32::MAX,
                    vertices@ == flatten(s.take(k as int)),
                    items@ == draw_plan(s).take(k as int),
                    offset == vertex_offset(s, k as int),
            {
                let c = &containers[k];
                proof {
                    assert(c@ == s[k as int]);
                    lemma_flatten_step(s, k as int);
                    lemma_flatten_prefix(s, k + 1);
                }
                let len = c.data.len();
                for j in 0..len
                    invariant
                        len == c.data@.len(),
                        vertices@ == flatten(s.take(k as int)) + c.data@.take(j as int),
                {
                    vertices.push(c.data[j]);
                    assert(vertices@ =~= flatten(s.take(k as int)) + c.data@.take(j + 1));
                }
                assert(c.data@.take(len as int) =~= c.data@);
                items.push(DrawItem { model: c.isometry, starting_index: offset, index_count: len as i32 });
                offset = offset + len as i32;
                assert(items@ =~= draw_plan(s).take(k + 1));
            }
            assert(s.take(n as int) =~= s);
            assert(draw_plan(s).take(n as int) =~= draw_plan(s));
        }
        let total = vertices.len();
        let recreate = match self.buffer_capacity {
            Some(capacity) => capacity < total,
            None => true,
        };
        if recreate {
            self.buffer_capacity = Some(total);
        }
        self.draw_items = items;
        self.containers.mark_uploaded();
        Some(Upload { recreate_capacity: if recreate { Some(total) } else { None }, vertices })
    }

    /// The work of one frame: nothing where drawing is off; otherwise the
    /// upload that the containers need, and the draw calls to make after it.
    pub fn render(&mut self) -> (r: Option<Frame<I, S, C>>)
        requires
            old(self).wf(),
            old(self)@.draw_enabled && old(self)@.registry.invalidated ==> fits_draw_range(old(self)@),
        ensures
            final(self).wf(),
            match r {
                None => !old(self)@.draw_enabled && final(self)@ == old(self)@,
                Some(frame) => {
                    &&& old(self)@.draw_enabled
                    &&& refreshed(old(self)@, final(self)@, upload_view(frame.upload))
                    &&& frame.draws@ == final(self)@.draw_items
                },
            },
    {
        if !self.draw_enabled {
            return None;
        }
        let upload = self.check_if_invalidated_and_reinitialize();
        let mut draws: Vec<DrawItem<I>> = Vec::new();
        for k in 0..self.draw_items.len()
            invariant
                draws@ == self.draw_items@.take(k as int),
        {
            draws.push(self.draw_items[k]);
            assert(draws@ =~= self.draw_items@.take(k + 1));
        }
        assert(draws@ =~= self.draw_items@);
        Some(Frame { upload, draws })
    }
}

/// A handle on a point marker's container.
pub struct PointMarker {
    id: i32,
}

/// A handle on the container of a set of rays.
pub struct RayMarkers {
    id: i32,
}

/// A handle on the container of a box outline.
pub struct AabbMarker {
    pub id: i32,
}

/// A handle on the container of a grid.
pub struct GridMarker {
    pub id: i32,
}

impl PointMarker {
    pub closed spec fn container_id(&self) -> i32 {
        self.id
    }

    /// Moves the marker to pose `isometry`.
    pub fn update_position<I, S, C>(&self, lines: &mut DebugLines<I, S, C>, isometry: I)
        requires
            old(lines).wf(),
        ensures
            final(lines).wf(),
            changed(old(lines)@, final(lines)@, with_isometry(old(lines)@.registry.containers, self.container_id(), isometry)),
    {
        lines.containers.set_isometry(self.id, isometry);
    }

    /// Takes the marker out of the overlay.
    pub fn release<I, S, C>(self, lines: &mut DebugLines<I, S, C>)
        requires
            old(lines).wf(),
        ensures
            final(lines).wf(),
            changed(old(lines)@, final(lines)@, without_id(old(lines)@.registry.containers, self.container_id())),
    {
        lines.containers.remove_container(self.id);
    }
}

impl RayMarkers {
    pub closed spec fn container_id(&self) -> i32 {
        self.id
    }

    /// Whether the first ray can be moved: the set holds one.
    pub fn can_move_ray<I, S, C>(&self, lines: &DebugLines<I, S, C>) -> (b: bool)
        requires
            lines.wf(),
        ensures
            b == segment_movable(lines@.registry.containers, self.container_id()),
    {
        let ghost s = lines@.registry.containers;
        match lines.containers.find(self.id) {
            Some(k) => {
                let c = &lines.containers.containers()[k];
                proof {
                    assert(c@ == s[k as int]);
                    assert forall|j: int| 0 <= j < s.len() && #[trigger] s[j].id == self.id implies j == k by {
                        if j < k { assert(s[j].id < s[k as int].id); }
                        else if j > k { assert(s[k as int].id < s[j].id); }
                    }
                }
                c.data.len() >= 2
            },
            None => true,
        }
    }

    /// Moves the first ray of the set to run from `start` to `end`, keeping its colors.
    pub fn update_ray_pos_and_dir<I, S, C: Copy>(&self, lines: &mut DebugLines<I, S, C>, start: Pos3<S>, end: Pos3<S>)
        requires
            old(lines).wf(),
            segment_movable(old(lines)@.registry.containers, self.container_id()),
        ensures
            final(lines).wf(),
            changed(old(lines)@, final(lines)@, with_segment(old(lines)@.registry.containers, self.container_id(), start, end)),
    {
        lines.containers.set_first_segment(self.id, start, end);
    }

    /// Moves the set of rays to pose `isometry`.
    pub fn update_isometry<I, S, C>(&self, lines: &mut DebugLines<I, S, C>, isometry: I)
        requires
            old(lines).wf(),
        ensures
            final(lines).wf(),
            changed(old(lines)@, final(lines)@, with_isometry(old(lines)@.registry.containers, self.container_id(), isometry)),
    {
        lines.containers.set_isometry(self.id, isometry);
    }

    /// Takes the rays out of the overlay.
    pub fn release<I, S, C>(self, lines: &mut DebugLines<I, S, C>)
        requires
            old(lines).wf(),
        ensures
            final(lines).wf(),
            changed(old(lines)@, final(lines)@, without_id(old(lines)@.registry.containers, self.container_id())),
    {
        lines.containers.remove_container(self.id);
    }
}

impl AabbMarker {
    /// Moves the box to pose `isometry`.
    pub fn update_isometry<I, S, C>(&self, lines: &mut DebugLines<I, S, C>, isometry: I)
        requires
            old(lines).wf(),
        ensures
            final(lines).wf(),
            changed(old(lines)@, final(lines)@, with_isometry(old(lines)@.registry.containers, self.id, isometry)),
    {
        lines.containers.set_isometry(self.id, isometry);
    }

    /// Takes the box out of the overlay.
    pub fn release<I, S, C>(self, lines: &mut DebugLines<I, S, C>)
        requires
            old(lines).wf(),
        ensures
            final(lines).wf(),
            changed(old(lines)@, final(lines)@, without_id(old(lines)@.registry.containers, self.id)),
    {
        lines.containers.remove_container(self.id);
    }
}

impl GridMarker {
    /// Moves the grid to pose `isometry`.
    pub fn update_isometry<I, S, C>(&self, lines: &mut DebugLines<I, S, C>, isometry: I)
        requires
            old(lines).wf(),
        ensures
            final(lines).wf(),
            changed(old(lines)@, final(lines)@, with_isometry(old(lines)@.registry.containers, self.id, isometry)),
    {
        lines.containers.set_isometry(self.id, isometry);
    }

    /// Takes the grid out of the overlay.
    pub fn release<I, S, C>(self, lines: &mut DebugLines<I, S, C>)
        requires
            old(lines).wf(),
        ensures
            final(lines).wf(),
            changed(old(lines)@, final(lines)@, without_id(old(lines)@.registry.containers, self.id)),
    {
        lines.containers.remove_container(self.id);
    }
}

} // verus!
