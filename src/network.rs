use vstd::prelude::*;

verus! {

/// The force law a spring applies between its two endpoints.
#[derive(Clone, Copy, Debug, PartialEq, Eq, Structural)]
pub enum SpringKind {
    /// Drives the angle of the segment start -> end toward a rest angle.
    Torsion,
    /// Drives the distance between the endpoints toward a rest length.
    Length,
}

/// A spring seen as a directed edge between two point ids.
#[derive(Clone, Copy, Debug, PartialEq, Eq, Structural)]
pub struct Link {
    pub start_id: u64,
    pub end_id: u64,
    pub kind: SpringKind,
}

impl Link {
    /// Both endpoints name one of the first `n` points.
    pub open spec fn within(self, n: nat) -> bool {
        self.start_id < n && self.end_id < n
    }

    pub fn new(start_id: u64, end_id: u64, kind: SpringKind) -> (r: Link)
        ensures
            r == (Link { start_id, end_id, kind }),
    {
        Link { start_id, end_id, kind }
    }
}

/// The reason a network cannot be stepped: a spring names a point that does
/// not exist. `spring_id` is the first such spring, in insertion order.
#[derive(Clone, Copy, Debug, PartialEq, Eq, Structural)]
pub struct DanglingSpring {
    pub spring_id: u64,
}

/// What one step of the simulation needs of a spring: the indices of the
/// two points it reads and writes, and its force law.
#[derive(Clone, Copy, Debug, PartialEq, Eq, Structural)]
pub struct Endpoints {
    pub start: usize,
    pub end: usize,
    pub kind: SpringKind,
}

/// The arena of a spring network: points are counted, springs are kept as
/// links, and both are identified by their 0-based insertion index. Nothing
/// is ever removed, so an id stays valid and means the same item for the
/// whole run.
pub struct Network {
    point_count: usize,
    links: Vec<Link>,
}

impl Network {
    /// Number of points added so far.
    pub closed spec fn points(self) -> nat {
        self.point_count as nat
    }

    /// The springs added so far, in insertion order.
    pub closed spec fn springs(self) -> Seq<Link> {
        self.links@
    }

    /// Every spring references existing points.
    pub open spec fn references_valid(self) -> bool {
        forall|i: int| 0 <= i < self.springs().len() ==> (#[trigger] self.springs()[i]).within(self.points())
    }

    /// `next` is `self` with one more point, whose id is `id`.
    pub open spec fn point_added(self, next: Network, id: u64) -> bool {
        &&& id == self.points()
        &&& next.points() == self.points() + 1
        &&& next.springs() == self.springs()
    }

    /// `next` is `self` with `link` appended as spring `id`.
    pub open spec fn link_added(self, next: Network, id: u64, link: Link) -> bool {
        &&& id == self.springs().len()
        &&& next.springs() == self.springs().push(link)
        &&& next.points() == self.points()
    }

    /// An empty network.
    pub fn new() -> (r: Network)
        ensures
            r.points() == 0,
            r.springs() == Seq::<Link>::empty(),
    {
        Network { point_count: 0, links: Vec::new() }
    }

    pub fn point_count(&self) -> (r: u64)
        ensures
            r == self.points(),
    {
        self.point_count as u64
    }

    pub fn spring_count(&self) -> (r: u64)
        ensures
            r == self.springs().len(),
    {
        self.links.len() as u64
    }

    /// The spring with id `id`, if there is one.
    pub fn spring(&self, id: u64) -> (r: Option<Link>)
        ensures
            id < self.springs().len() ==> r == Some(self.springs()[id as int]),
            id >= self.springs().len() ==> r.is_none(),
    {
        if id < self.links.len() as u64 {
            Some(self.links[id as usize])
        } else {
            None
        }
    }

    /// Appends a point and returns its id, which is the number of points
    /// that came before it.
    pub fn add_point(&mut self) -> (id: u64)
        requires
            old(self).points() < usize::MAX,
        ensures
            old(self).point_added(*final(self), id),
    {
        let id = self.point_count as u64;
        self.point_count = self.point_count + 1;
        id
    }

    /// Appends `link` and returns its spring id, which is the number of
    /// springs that came before it. The endpoints are not checked here.
    pub fn add_link(&mut self, link: Link) -> (id: u64)
        requires
            old(self).springs().len() < usize::MAX,
        ensures
            old(self).link_added(*final(self), id, link),
    {
        let id = self.links.len() as u64;
        self.links.push(link);
        id
    }

    /// Appends a length spring from `start_id` to `end_id`.
    pub fn add_spring(&mut self, start_id: u64, end_id: u64) -> (id: u64)
        requires
            old(self).springs().len() < usize::MAX,
        ensures
            old(self).link_added(*final(self), id, Link { start_id, end_id, kind: SpringKind::Length }),
    {
        self.add_link(Link::new(start_id, end_id, SpringKind::Length))
    }

    /// Appends a torsion spring from `start_id` to `end_id`.
    pub fn add_torsion(&mut self, start_id: u64, end_id: u64) -> (id: u64)
        requires
            old(self).springs().len() < usize::MAX,
        ensures
            old(self).link_added(*final(self), id, Link { start_id, end_id, kind: SpringKind::Torsion }),
    {
        self.add_link(Link::new(start_id, end_id, SpringKind::Torsion))
    }

    /// The point indices of every spring, in spring order, as one step of
    /// the simulation reads them; or the first spring, in insertion order,
    /// that names a point which does not exist.
    pub fn resolve(&self) -> (r: Result<Vec<Endpoints>, DanglingSpring>)
        ensures
            r is Ok <==> self.references_valid(),
            r matches Ok(v) ==> {
                &&& v@.len() == self.springs().len()
                &&& forall|i: int| 0 <= i < v@.len() ==> {
                    &&& (#[trigger] v@[i]).start == self.springs()[i].start_id
                    &&& v@[i].end == self.springs()[i].end_id
                    &&& v@[i].kind == self.springs()[i].kind
                }
            },
            r matches Err(e) ==> {
                &&& e.spring_id < self.springs().len()
                &&& !self.springs()[e.spring_id as int].within(self.points())
                &&& forall|i: int| 0 <= i < e.spring_id ==> (#[trigger] self.springs()[i]).within(self.points())
            },
    {
        let mut out: Vec<Endpoints> = Vec::new();
        let mut i: usize = 0;
        while i < self.links.len()
            invariant
                i <= self.links@.len(),
                out@.len() == i,
                forall|j: int| 0 <= j < i ==> (#[trigger] self.links@[j]).within(self.points()),
                forall|j: int| 0 <= j < i ==> {
                    &&& (#[trigger] out@[j]).start == self.links@[j].start_id
                    &&& out@[j].end == self.links@[j].end_id
                    &&& out@[j].kind == self.links@[j].kind
                },
            decreases self.links@.len() - i,
        {
            let link = self.links[i];
            if link.start_id >= self.point_count as u64 || link.end_id >= self.point_count as u64 {
                return Err(DanglingSpring { spring_id: i as u64 });
            }
            out.push(Endpoints { start: link.start_id as usize, end: link.end_id as usize, kind: link.kind });
            i = i + 1;
        }
        Ok(out)
    }
}

/// One construction call on a network, with the id it returned.
#[derive(Clone, Copy, Debug, PartialEq, Eq, Structural)]
pub enum Added {
    Point { id: u64 },
    Spring { id: u64, link: Link },
}

/// `next` is what the call recorded in `a` makes of `prev`.
pub open spec fn added(prev: Network, next: Network, a: Added) -> bool {
    match a {
        Added::Point { id } => prev.point_added(next, id),
        Added::Spring { id, link } => prev.link_added(next, id, link),
    }
}

/// How many of the first `k` calls added a point.
pub open spec fn points_before(adds: Seq<Added>, k: int) -> nat
    decreases k,
{
    if k <= 0 {
        0
    } else {
        points_before(adds, k - 1) + if adds[k - 1] is Point { 1nat } else { 0nat }
    }
}

/// How many of the first `k` calls added a spring.
pub open spec fn springs_before(adds: Seq<Added>, k: int) -> nat
    decreases k,
{
    if k <= 0 {
        0
    } else {
        springs_before(adds, k - 1) + if adds[k - 1] is Spring { 1nat } else { 0nat }
    }
}

/// A history of construction: `nets[0]` is empty and call `i` turns
/// `nets[i]` into `nets[i + 1]`.
pub open spec fn built_by(nets: Seq<Network>, adds: Seq<Added>) -> bool {
    &&& nets.len() == adds.len() + 1
    &&& nets[0].points() == 0
    &&& nets[0].springs().len() == 0
    &&& forall|i: int| 0 <= i < adds.len() ==> added(#[trigger] nets[i], nets[i + 1], adds[i])
}

proof fn lemma_counts_grow(adds: Seq<Added>, i: int, j: int)
    requires
        0 <= i <= j,
    ensures
        points_before(adds, i) <= points_before(adds, j),
        springs_before(adds, i) <= springs_before(adds, j),
    decreases j - i,
{
    if i < j {
        lemma_counts_grow(adds, i, j - 1);
    }
}

proof fn lemma_prefix(nets: Seq<Network>, adds: Seq<Added>, k: int)
    requires
        built_by(nets, adds),
        0 <= k <= adds.len(),
    ensures
        nets[k].points() == points_before(adds, k),
        nets[k].springs().len() == springs_before(adds, k),
        forall|i: int|
            0 <= i < k ==> (#[trigger] adds[i] matches Added::Spring { id, link } ==> {
                &&& id < nets[k].springs().len()
                &&& nets[k].springs()[id as int] == link
            }),
    decreases k,
{
    if k > 0 {
        lemma_prefix(nets, adds, k - 1);
        assert(added(nets[k - 1], nets[k], adds[k - 1]));
        let prev = nets[k - 1].springs();
        let cur = nets[k].springs();
        assert(prev.len() <= cur.len());
        assert(forall|j: int| 0 <= j < prev.len() ==> cur[j] == prev[j]);
    }
}

/// Ids are handed out in insertion order and are never reused or
/// renumbered: the `k`-th point (resp. spring) added gets id `k`, so ids of
/// one kind strictly increase from 0, and every spring stays under its id
/// for the rest of the run.
pub proof fn lemma_ids_in_insertion_order(nets: Seq<Network>, adds: Seq<Added>)
    requires
        built_by(nets, adds),
    ensures
        forall|i: int|
            0 <= i < adds.len() ==> (#[trigger] adds[i] matches Added::Point { id } ==> id == points_before(adds, i)),
        forall|i: int|
            0 <= i < adds.len() ==> (#[trigger] adds[i] matches Added::Spring { id, link } ==> {
                &&& id == springs_before(adds, i)
                &&& nets.last().springs()[id as int] == link
            }),
        forall|i: int, j: int|
            0 <= i < j < adds.len() && adds[i] is Point && adds[j] is Point ==> (#[trigger] adds[i])->Point_id < (#[trigger] adds[j])->Point_id,
        forall|i: int, j: int|
            0 <= i < j < adds.len() && adds[i] is Spring && adds[j] is Spring ==> (#[trigger] adds[i])->Spring_id < (#[trigger] adds[j])->Spring_id,
{
    let n = adds.len() as int;
    lemma_prefix(nets, adds, n);
    assert forall|i: int| 0 <= i < n implies (#[trigger] adds[i] matches Added::Point { id } ==> id == points_before(adds, i)) by {
        assert(added(nets[i], nets[i + 1], adds[i]));
        lemma_prefix(nets, adds, i);
    }
    assert forall|i: int| 0 <= i < n implies (#[trigger] adds[i] matches Added::Spring { id, link } ==> {
        &&& id == springs_before(adds, i)
        &&& nets.last().springs()[id as int] == link
    }) by {
        assert(added(nets[i], nets[i + 1], adds[i]));
        lemma_prefix(nets, adds, i);
    }
    assert forall|i: int, j: int|
        0 <= i < j < n && adds[i] is Point && adds[j] is Point implies (#[trigger] adds[i])->Point_id < (#[trigger] adds[j])->Point_id by {
        assert(added(nets[i], nets[i + 1], adds[i]));
        assert(added(nets[j], nets[j + 1], adds[j]));
        lemma_prefix(nets, adds, i);
        lemma_prefix(nets, adds, j);
        lemma_counts_grow(adds, i + 1, j);
    }
    assert forall|i: int, j: int|
        0 <= i < j < n && adds[i] is Spring && adds[j] is Spring implies (#[trigger] adds[i])->Spring_id < (#[trigger] adds[j])->Spring_id by {
        assert(added(nets[i], nets[i + 1], adds[i]));
        assert(added(nets[j], nets[j + 1], adds[j]));
        lemma_prefix(nets, adds, i);
        lemma_prefix(nets, adds, j);
        lemma_counts_grow(adds, i + 1, j);
    }
}

} // verus!
