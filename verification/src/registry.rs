use vstd::prelude::*;
use crate::geometry::LinePoint;

verus! {

/// A container of debug lines: a pose and the line list drawn in it.
pub struct Container<I, S, C> {
    pub id: i32,
    pub isometry: I,
    pub data: Vec<LinePoint<S, C>>,
}

/// What a container holds, as a mathematical value.
pub struct ContainerView<I, S, C> {
    pub id: i32,
    pub isometry: I,
    pub data: Seq<LinePoint<S, C>>,
}

impl<I, S, C> View for Container<I, S, C> {
    type V = ContainerView<I, S, C>;

    open spec fn view(&self) -> ContainerView<I, S, C> {
        ContainerView { id: self.id, isometry: self.isometry, data: self.data@ }
    }
}

/// What a registry holds: the last id handed out, whether anything changed
/// since the containers were last uploaded, and the containers in the order
/// they were added.
pub struct RegistryView<I, S, C> {
    pub last_id: int,
    pub invalidated: bool,
    pub containers: Seq<ContainerView<I, S, C>>,
}

/// Ids grow along the sequence, so no id occurs twice.
pub open spec fn ids_ascending<I, S, C>(s: Seq<ContainerView<I, S, C>>) -> bool {
    forall|i: int, j: int| 0 <= i < j < s.len() ==> s[i].id < s[j].id
}

/// Some container of `s` has id `id`.
pub open spec fn holds_id<I, S, C>(s: Seq<ContainerView<I, S, C>>, id: i32) -> bool {
    exists|k: int| 0 <= k < s.len() && #[trigger] s[k].id == id
}

/// The position in `s` of the container with id `id`, where there is one.
pub open spec fn index_of<I, S, C>(s: Seq<ContainerView<I, S, C>>, id: i32) -> int {
    choose|k: int| 0 <= k < s.len() && #[trigger] s[k].id == id
}

/// `s` without the container of id `id`.
pub open spec fn without_id<I, S, C>(s: Seq<ContainerView<I, S, C>>, id: i32) -> Seq<ContainerView<I, S, C>> {
    if holds_id(s, id) { s.remove(index_of(s, id)) } else { s }
}

/// `s` with the container of id `id`, if any, moved to pose `isometry`.
pub open spec fn with_isometry<I, S, C>(s: Seq<ContainerView<I, S, C>>, id: i32, isometry: I) -> Seq<ContainerView<I, S, C>> {
    s.map_values(|c: ContainerView<I, S, C>|
        if c.id == id { ContainerView { id: c.id, isometry, data: c.data } } else { c })
}

/// `c` with its first two points moved to `start` and `end`, their colors kept.
pub open spec fn with_first_segment<I, S, C>(c: ContainerView<I, S, C>, start: crate::geometry::Pos3<S>, end: crate::geometry::Pos3<S>) -> ContainerView<I, S, C> {
    ContainerView {
        id: c.id,
        isometry: c.isometry,
        data: c.data.update(0, LinePoint { pos: start, color: c.data[0].color }).update(
            1,
            LinePoint { pos: end, color: c.data[1].color },
        ),
    }
}

/// `s` with the first segment of the container of id `id`, if any, moved.
pub open spec fn with_segment<I, S, C>(s: Seq<ContainerView<I, S, C>>, id: i32, start: crate::geometry::Pos3<S>, end: crate::geometry::Pos3<S>) -> Seq<ContainerView<I, S, C>> {
    s.map_values(|c: ContainerView<I, S, C>|
        if c.id == id { with_first_segment(c, start, end) } else { c })
}

/// A well-formed registry: ids are positive, ascending, and none is above the last id handed out.
pub open spec fn registry_wf<I, S, C>(v: RegistryView<I, S, C>) -> bool {
    &&& 0 <= v.last_id <= i32::MAX
    &&& ids_ascending(v.containers)
    &&& forall|k: int| 0 <= k < v.containers.len() ==> 1 <= #[trigger] v.containers[k].id <= v.last_id
}

/// The containers of debug lines, shared by the overlay and the markers that it handed out.
pub struct SharedDebugLines<I, S, C> {
    counter: i32,
    invalidated: bool,
    containers: Vec<Container<I, S, C>>,
}

impl<I, S, C> View for SharedDebugLines<I, S, C> {
    type V = RegistryView<I, S, C>;

    closed spec fn view(&self) -> RegistryView<I, S, C> {
        RegistryView {
            last_id: self.counter as int,
            invalidated: self.invalidated,
            containers: self.containers@.map_values(|c: Container<I, S, C>| c@),
        }
    }
}

impl<I, S, C> SharedDebugLines<I, S, C> {
    pub open spec fn wf(&self) -> bool {
        registry_wf(self@)
    }

    /// An empty registry.
    pub fn new() -> (r: Self)
        ensures
            r.wf(),
            r@ == (RegistryView::<I, S, C> { last_id: 0, invalidated: false, containers: Seq::empty() }),
    {
        let r = SharedDebugLines { counter: 0, invalidated: false, containers: Vec::new() };
        assert(r@.containers =~= Seq::<ContainerView<I, S, C>>::empty());
        r
    }

    /// Whether another id can still be handed out.
    pub fn has_free_id(&self) -> (b: bool)
        ensures
            b == (self@.last_id < i32::MAX),
    {
        self.counter < i32::MAX
    }

    /// Whether anything changed since the containers were last uploaded.
    pub fn is_invalidated(&self) -> (b: bool)
        ensures
            b == self@.invalidated,
    {
        self.invalidated
    }

    /// The containers, in the order they were added.
    pub fn containers(&self) -> (r: &Vec<Container<I, S, C>>)
        ensures
            r@.map_values(|c: Container<I, S, C>| c@) == self@.containers,
    {
        &self.containers
    }

    /// Adds a container and returns its id, the next one after the last id handed out.
    pub fn new_container(&mut self, isometry: I, data: Vec<LinePoint<S, C>>) -> (id: i32)
        requires
            old(self).wf(),
            old(self)@.last_id < i32::MAX,
        ensures
            final(self).wf(),
            id == old(self)@.last_id + 1,
            final(self)@ == (RegistryView {
                last_id: id as int,
                invalidated: true,
                containers: old(self)@.containers.push(ContainerView { id, isometry, data: data@ }),
            }),
    {
        let ghost data_view = data@;
        self.counter = self.counter + 1;
        self.invalidated = true;
        let id = self.counter;
        self.containers.push(Container { id, isometry, data });
        assert(self@.containers =~= old(self)@.containers.push(ContainerView { id, isometry, data: data_view }));
        id
    }

    /// The position of the container with id `id`, if there is one.
    pub fn find(&self, id: i32) -> (r: Option<usize>)
        requires
            self.wf(),
        ensures
            match r {
                Some(k) => k < self@.containers.len() && self@.containers[k as int].id == id
                    && k == index_of(self@.containers, id),
                None => !holds_id(self@.containers, id),
            },
    {
        let ghost s = self@.containers;
        let n = self.containers.len();
        for i in 0..n
            invariant
                n == self.containers@.len(),
                s == self@.containers,
                s == self.containers@.map_values(|c: Container<I, S, C>| c@),
                ids_ascending(s),
                forall|j: int| 0 <= j < i ==> s[j].id != id,
        {
            if self.containers[i].id == id {
                proof {
                    assert(s[i as int].id == id);
                    let k = index_of(s, id);
                    assert(holds_id(s, id));
                    assert(0 <= k < s.len() && s[k].id == id);
                    assert(k == i) by {
                        if k < i {
                        } else if k > i {
                            assert(s[i as int].id < s[k].id);
                        }
                    }
                }
                return Some(i);
            }
        }
        None
    }

    /// Moves the container with id `id`, if there is one, to pose `isometry`.
    /// The registry counts as changed whether or not the id was found.
    pub fn set_isometry(&mut self, id: i32, isometry: I)
        requires
            old(self).wf(),
        ensures
            final(self).wf(),
            final(self)@ == (RegistryView {
                last_id: old(self)@.last_id,
                invalidated: true,
                containers: with_isometry(old(self)@.containers, id, isometry),
            }),
    {
        self.invalidated = true;
        let found = self.find(id);
        let ghost s = old(self)@.containers;
        match found {
            Some(k) => {
                self.containers[k].isometry = isometry;
                assert forall|j: int| 0 <= j < s.len() && j != k implies s[j].id != id by {
                    if j < k { assert(s[j].id < s[k as int].id); } else { assert(s[k as int].id < s[j].id); }
                }
            },
            None => {},
        }
        assert(self@.containers =~= with_isometry(s, id, isometry));
    }

    /// Removes the container with id `id`, if there is one.
    /// The registry counts as changed whether or not the id was found.
    pub fn remove_container(&mut self, id: i32)
        requires
            old(self).wf(),
        ensures
            final(self).wf(),
            final(self)@ == (RegistryView {
                last_id: old(self)@.last_id,
                invalidated: true,
                containers: without_id(old(self)@.containers, id),
            }),
    {
        self.invalidated = true;
        let found = self.find(id);
        let ghost s = old(self)@.containers;
        match found {
            Some(k) => {
                let _removed = self.containers.remove(k);
                assert(self@.containers =~= s.remove(k as int));
            },
            None => {
                assert(self@.containers =~= s);
            },
        }
    }

    /// Records that the containers as they stand now have been uploaded.
    pub fn mark_uploaded(&mut self)
        requires
            old(self).wf(),
        ensures
            final(self).wf(),
            final(self)@ == (RegistryView {
                last_id: old(self)@.last_id,
                invalidated: false,
                containers: old(self)@.containers,
            }),
    {
        self.invalidated = false;
    }
}

impl<I, S, C: Copy> SharedDebugLines<I, S, C> {
    /// Moves the first two points of the container with id `id`, if there is
    /// one, to `start` and `end`, keeping their colors.
    /// The registry counts as changed whether or not the id was found.
    pub fn set_first_segment(&mut self, id: i32, start: crate::geometry::Pos3<S>, end: crate::geometry::Pos3<S>)
        requires
            old(self).wf(),
            forall|k: int| 0 <= k < old(self)@.containers.len() && #[trigger] old(self)@.containers[k].id == id
                ==> old(self)@.containers[k].data.len() >= 2,
        ensures
            final(self).wf(),
            final(self)@ == (RegistryView {
                last_id: old(self)@.last_id,
                invalidated: true,
                containers: with_segment(old(self)@.containers, id, start, end),
            }),
    {
        self.invalidated = true;
        let found = self.find(id);
        let ghost s = old(self)@.containers;
        match found {
            Some(k) => {
                assert(s[k as int].id == id);
                let first = self.containers[k].data[0].color;
                let second = self.containers[k].data[1].color;
                self.containers[k].data[0] = LinePoint { pos: start, color: first };
                self.containers[k].data[1] = LinePoint { pos: end, color: second };
                assert forall|j: int| 0 <= j < s.len() && j != k implies s[j].id != id by {
                    if j < k { assert(s[j].id < s[k as int].id); } else { assert(s[k as int].id < s[j].id); }
                }
                assert(self@.containers[k as int].data =~= with_first_segment(s[k as int], start, end).data);
            },
            None => {},
        }
        assert(self@.containers =~= with_segment(s, id, start, end));
    }
}

/// Moving the first segment of a container puts its first vertex exactly at
/// `start` and its second exactly at `end`, keeps their colors, and keeps the
/// container's id, pose, length and every later vertex.
pub proof fn lemma_first_segment_moved<I, S, C>(
    c: ContainerView<I, S, C>,
    start: crate::geometry::Pos3<S>,
    end: crate::geometry::Pos3<S>,
)
    requires
        c.data.len() >= 2,
    ensures
        with_first_segment(c, start, end).id == c.id,
        with_first_segment(c, start, end).isometry == c.isometry,
        with_first_segment(c, start, end).data.len() == c.data.len(),
        with_first_segment(c, start, end).data[0].pos == start,
        with_first_segment(c, start, end).data[0].pos.x == start.x,
        with_first_segment(c, start, end).data[0].pos.y == start.y,
        with_first_segment(c, start, end).data[0].pos.z == start.z,
        with_first_segment(c, start, end).data[1].pos == end,
        with_first_segment(c, start, end).data[1].pos.x == end.x,
        with_first_segment(c, start, end).data[1].pos.y == end.y,
        with_first_segment(c, start, end).data[1].pos.z == end.z,
        with_first_segment(c, start, end).data[0].color == c.data[0].color,
        with_first_segment(c, start, end).data[1].color == c.data[1].color,
        forall|i: int| 2 <= i < c.data.len() ==> #[trigger] with_first_segment(c, start, end).data[i] == c.data[i],
{
}

/// Moving the first segment of the container with id `id` changes that
/// container's first two vertices to `start` and `end` and nothing else: the
/// other containers, and every id and pose, stay as they were.
pub proof fn lemma_segment_moved_in_registry<I, S, C>(
    s: Seq<ContainerView<I, S, C>>,
    id: i32,
    start: crate::geometry::Pos3<S>,
    end: crate::geometry::Pos3<S>,
)
    ensures
        with_segment(s, id, start, end).len() == s.len(),
        forall|k: int| 0 <= k < s.len() ==> {
            &&& (#[trigger] with_segment(s, id, start, end)[k]).id == s[k].id
            &&& with_segment(s, id, start, end)[k].isometry == s[k].isometry
            &&& s[k].id != id ==> with_segment(s, id, start, end)[k] == s[k]
            &&& (s[k].id == id && s[k].data.len() >= 2) ==> {
                &&& with_segment(s, id, start, end)[k].data.len() == s[k].data.len()
                &&& with_segment(s, id, start, end)[k].data[0].pos == start
                &&& with_segment(s, id, start, end)[k].data[1].pos == end
                &&& with_segment(s, id, start, end)[k].data[0].color == s[k].data[0].color
                &&& with_segment(s, id, start, end)[k].data[1].color == s[k].data[1].color
            }
        },
{
}

/// Releasing takes out exactly the container with the given id: afterwards no
/// container has that id, one container fewer remains where there was one,
/// and every other container stays, in the same order.
pub proof fn lemma_release_takes_out_only_that_id<I, S, C>(s: Seq<ContainerView<I, S, C>>, id: i32)
    requires
        ids_ascending(s),
    ensures
        !holds_id(without_id(s, id), id),
        without_id(s, id).len() == if holds_id(s, id) { s.len() - 1 } else { s.len() as int },
        ids_ascending(without_id(s, id)),
        forall|k: int| 0 <= k < s.len() && s[k].id != id ==> without_id(s, id).contains(#[trigger] s[k]),
        forall|j: int| 0 <= j < without_id(s, id).len() ==> s.contains(#[trigger] without_id(s, id)[j]),
{
    let r = without_id(s, id);
    if holds_id(s, id) {
        let m = index_of(s, id);
        assert(0 <= m < s.len() && s[m].id == id);
        assert forall|k: int| 0 <= k < s.len() && s[k].id != id implies r.contains(#[trigger] s[k]) by {
            if k < m {
                assert(r[k] == s[k]);
            } else {
                assert(k != m);
                assert(r[k - 1] == s[k]);
            }
        }
        assert forall|j: int| 0 <= j < r.len() implies s.contains(#[trigger] r[j]) by {
            if j < m { assert(s[j] == r[j]); } else { assert(s[j + 1] == r[j]); }
        }
        assert forall|j: int| 0 <= j < r.len() implies #[trigger] r[j].id != id by {
            if j < m { assert(s[j].id < s[m].id); } else { assert(s[m].id < s[j + 1].id); }
        }
    } else {
        assert forall|k: int| 0 <= k < s.len() && s[k].id != id implies r.contains(#[trigger] s[k]) by {
            assert(r[k] == s[k]);
        }
        assert forall|j: int| 0 <= j < r.len() implies s.contains(#[trigger] r[j]) by {
            assert(s[j] == r[j]);
        }
    }
}

} // verus!
