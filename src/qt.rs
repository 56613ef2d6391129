//! A quadtree over values that occupy a region, rebuilt whenever the values move.
//!
//! A value is stored in every leaf whose bounds it meets, so a value that
//! straddles a boundary is held more than once. A node splits into four
//! quadrants once it holds `SPLIT_SIZE` values and another arrives, unless its
//! bounds are too small to halve on both axes; such a node keeps every value.
use vstd::prelude::*;
use crate::region::{
    HasRegion, PointData, RectangleData, Region, intersects_spec, lemma_meets_enclosing, gap_x,
    gap_y, lemma_intersects_symmetric, contains_point, point_rect_spec, lemma_covering_meets_rect,
    lemma_sharing_point_meets,
};

verus! {

pub const SPLIT_SIZE: usize = 10;

/// The four quadrants of a node that has split.
pub struct Quadrants<T> {
    pub top_right: QuadTree<T>,
    pub top_left: QuadTree<T>,
    pub bottom_left: QuadTree<T>,
    pub bottom_right: QuadTree<T>,
}

pub struct QuadTree<T> {
    contents: Vec<T>,
    split: bool,
    children: Option<Box<Quadrants<T>>>,
    bounds: RectangleData,
}

/// Bounds that can be halved on both axes into nonempty parts.
pub open spec fn splittable(b: RectangleData) -> bool {
    b.w >= 2 && b.h >= 2
}

/// Quadrant `k` of `b`: top-right, top-left, bottom-left, bottom-right. The
/// left column and top row take the smaller half of an odd length.
pub open spec fn quadrant(b: RectangleData, k: int) -> RectangleData {
    let hw = (b.w / 2) as i64;
    let hh = (b.h / 2) as i64;
    let x_right = (b.x + hw) as i64;
    let y_bottom = (b.y + hh) as i64;
    let w_right = (b.w - hw) as i64;
    let h_bottom = (b.h - hh) as i64;
    if k == 0 {
        RectangleData { x: x_right, y: b.y, w: w_right, h: hh }
    } else if k == 1 {
        RectangleData { x: b.x, y: b.y, w: hw, h: hh }
    } else if k == 2 {
        RectangleData { x: b.x, y: y_bottom, w: hw, h: h_bottom }
    } else {
        RectangleData { x: x_right, y: y_bottom, w: w_right, h: h_bottom }
    }
}

/// The values of `s` whose region meets `region`, in order.
pub open spec fn meeting<T: HasRegion>(s: Seq<T>, region: Region) -> Seq<T>
    decreases s.len(),
{
    if s.len() == 0 {
        Seq::empty()
    } else {
        let rest = meeting(s.drop_last(), region);
        if intersects_spec(region, s.last().region_of()) {
            rest.push(s.last())
        } else {
            rest
        }
    }
}

/// Quadrant `k` of `b` lies inside `b`, and is smaller than `b` when `b` can split.
pub proof fn lemma_quadrant_within(b: RectangleData, k: int)
    requires
        b.valid(),
        0 <= k < 4,
    ensures
        quadrant(b, k).within(b),
        quadrant(b, k).valid(),
        splittable(b) ==> quadrant(b, k).w + quadrant(b, k).h < b.w + b.h,
{
}

/// A region that meets a rectangle meets one of its quadrants: the one that
/// holds the region's nearest point to the rectangle.
pub proof fn lemma_quadrant_cover(v: Region, b: RectangleData) -> (k: int)
    requires
        v.valid(),
        b.valid(),
        intersects_spec(v, Region::Rectangle(b)),
    ensures
        0 <= k < 4,
        intersects_spec(v, Region::Rectangle(quadrant(b, k))),
{
    let (px, py) = match v {
        Region::Point(p) => (p.x, p.y),
        Region::Rectangle(r) => (r.x, r.y),
        Region::Circle(c) => (c.x, c.y),
    };
    let right = px > b.x + b.w / 2;
    let bottom = py > b.y + b.h / 2;
    let k = if right {
        if bottom {
            3int
        } else {
            0int
        }
    } else {
        if bottom {
            2int
        } else {
            1int
        }
    };
    if let Region::Circle(c) = v {
        assert(gap_x(quadrant(b, k), c) == gap_x(b, c));
        assert(gap_y(quadrant(b, k), c) == gap_y(b, c));
    }
    k
}

/// Each quadrant holds every value of the node that meets the quadrant's bounds.
spec fn covers<T: HasRegion + Copy>(q: Quadrants<T>, b: RectangleData) -> bool {
    forall|v: T|
        #[trigger] (q.top_right.items() + q.top_left.items() + q.bottom_left.items()
            + q.bottom_right.items()).contains(v) ==> {
            &&& intersects_spec(v.region_of(), Region::Rectangle(quadrant(b, 0)))
                ==> q.top_right.items().contains(v)
            &&& intersects_spec(v.region_of(), Region::Rectangle(quadrant(b, 1)))
                ==> q.top_left.items().contains(v)
            &&& intersects_spec(v.region_of(), Region::Rectangle(quadrant(b, 2)))
                ==> q.bottom_left.items().contains(v)
            &&& intersects_spec(v.region_of(), Region::Rectangle(quadrant(b, 3)))
                ==> q.bottom_right.items().contains(v)
        }
}

impl<T: HasRegion + Copy> QuadTree<T> {
    pub closed spec fn bounds_view(self) -> RectangleData {
        self.bounds
    }

    pub closed spec fn is_split_view(self) -> bool {
        self.split
    }

    /// The values this node holds directly (none once it has split).
    pub closed spec fn contents_view(self) -> Seq<T> {
        self.contents@
    }

    pub closed spec fn wf(self) -> bool
        decreases self,
    {
        &&& self.bounds.valid()
        &&& self.split == self.children.is_some()
        &&& if self.split {
            let q = *self.children.unwrap();
            &&& self.contents@.len() == 0
            &&& splittable(self.bounds)
            &&& q.top_right.bounds == quadrant(self.bounds, 0)
            &&& q.top_left.bounds == quadrant(self.bounds, 1)
            &&& q.bottom_left.bounds == quadrant(self.bounds, 2)
            &&& q.bottom_right.bounds == quadrant(self.bounds, 3)
            &&& q.top_right.wf()
            &&& q.top_left.wf()
            &&& q.bottom_left.wf()
            &&& q.bottom_right.wf()
            &&& covers(q, self.bounds)
        } else {
            forall|k: int|
                0 <= k < self.contents@.len() ==> {
                    &&& (#[trigger] self.contents@[k]).region_of().valid()
                    &&& intersects_spec(
                        self.contents@[k].region_of(),
                        Region::Rectangle(self.bounds),
                    )
                }
        }
    }

    /// Every value held anywhere in the tree.
    pub closed spec fn items(self) -> Set<T>
        decreases self,
    {
        if self.split && self.children.is_some() {
            let q = *self.children.unwrap();
            q.top_right.items() + q.top_left.items() + q.bottom_left.items()
                + q.bottom_right.items()
        } else {
            self.contents@.to_set()
        }
    }

    /// What `query(region)` returns: the leaves in quadrant order; from each
    /// leaf whose bounds meet `region`, its values that meet `region`.
    pub closed spec fn query_spec(self, region: Region) -> Seq<T>
        decreases self,
    {
        if self.split && self.children.is_some() {
            let q = *self.children.unwrap();
            q.top_right.query_spec(region) + q.top_left.query_spec(region)
                + q.bottom_left.query_spec(region) + q.bottom_right.query_spec(region)
        } else if intersects_spec(region, Region::Rectangle(self.bounds)) {
            meeting(self.contents@, region)
        } else {
            Seq::empty()
        }
    }

    pub fn new(bounds: RectangleData) -> (qt: Self)
        requires
            bounds.valid(),
        ensures
            qt.wf(),
            qt.bounds_view() == bounds,
            !qt.is_split_view(),
            qt.contents_view() == Seq::<T>::empty(),
            qt.items() == Set::<T>::empty(),
    {
        let qt = QuadTree { contents: Vec::new(), split: false, children: None, bounds };
        proof {
            assert(qt.contents@.to_set() =~= Set::<T>::empty());
        }
        qt
    }

    /// Adds `value` to every leaf whose bounds it meets, splitting a full leaf
    /// first. A value that meets none of the tree's bounds is dropped.
    pub fn insert(&mut self, value: T)
        requires
            old(self).wf(),
            value.region_of().valid(),
        ensures
            final(self).wf(),
            final(self).bounds_view() == old(self).bounds_view(),
            final(self).items() == (if intersects_spec(
                value.region_of(),
                Region::Rectangle(old(self).bounds_view()),
            ) {
                old(self).items().insert(value)
            } else {
                old(self).items()
            }),
            old(self).is_split_view() ==> final(self).is_split_view(),
            !old(self).is_split_view() && old(self).contents_view().len() >= SPLIT_SIZE
                && splittable(old(self).bounds_view()) ==> final(self).is_split_view(),
            !old(self).is_split_view() && !(old(self).contents_view().len() >= SPLIT_SIZE
                && splittable(old(self).bounds_view())) ==> {
                &&& !final(self).is_split_view()
                &&& final(self).contents_view() == if intersects_spec(
                    value.region_of(),
                    Region::Rectangle(old(self).bounds_view()),
                ) {
                    old(self).contents_view().push(value)
                } else {
                    old(self).contents_view()
                }
            },
            final(self).is_split_view() ==> final(self).contents_view().len() == 0,
        decreases old(self).bounds_view().w + old(self).bounds_view().h, 2int,
    {
        if self.split {
            self.insert_children(value);
        } else if self.contents.len() >= SPLIT_SIZE && self.bounds.w >= 2 && self.bounds.h >= 2 {
            self.split();
            self.insert_children(value);
        } else {
            let value_region = value.get_region();
            if value_region.intersects(&self.bounds) {
                self.contents.push(value);
                proof {
                    assert(self.contents@.to_set() =~= old(self).contents@.to_set().insert(value))
                        by {
                        assert(self.contents@ == old(self).contents@.push(value));
                        old(self).contents@.lemma_push_to_set_commute(value);
                    }
                }
            }
        }
    }

    /// The bounds of the four quadrants, in the order top-right, top-left,
    /// bottom-left, bottom-right.
    fn child_coords(&self) -> (r: (RectangleData, RectangleData, RectangleData, RectangleData))
        requires
            self.bounds.valid(),
        ensures
            r.0 == quadrant(self.bounds, 0),
            r.1 == quadrant(self.bounds, 1),
            r.2 == quadrant(self.bounds, 2),
            r.3 == quadrant(self.bounds, 3),
    {
        let x = self.bounds.x;
        let y = self.bounds.y;
        let half_width = self.bounds.w / 2;
        let half_height = self.bounds.h / 2;
        let rest_width = self.bounds.w - half_width;
        let rest_height = self.bounds.h - half_height;
        (
            RectangleData::new(x + half_width, y, rest_width, half_height),
            RectangleData::new(x, y, half_width, half_height),
            RectangleData::new(x, y + half_height, half_width, rest_height),
            RectangleData::new(x + half_width, y + half_height, rest_width, rest_height),
        )
    }

    fn split(&mut self)
        requires
            old(self).wf(),
            !old(self).split,
            splittable(old(self).bounds),
        ensures
            final(self).wf(),
            final(self).split,
            final(self).bounds == old(self).bounds,
            final(self).items() == old(self).items(),
        decreases old(self).bounds.w + old(self).bounds.h, 1int,
    {
        let (q1, q2, q3, q4) = self.child_coords();
        proof {
            lemma_quadrant_within(self.bounds, 0);
            lemma_quadrant_within(self.bounds, 1);
            lemma_quadrant_within(self.bounds, 2);
            lemma_quadrant_within(self.bounds, 3);
        }
        self.children = Some(
            Box::new(
                Quadrants {
                    top_right: QuadTree::new(q1),
                    top_left: QuadTree::new(q2),
                    bottom_left: QuadTree::new(q3),
                    bottom_right: QuadTree::new(q4),
                },
            ),
        );
        self.split = true;
        let mut contents_copy: Vec<T> = Vec::new();
        core::mem::swap(&mut self.contents, &mut contents_copy);
        proof {
            assert(self.items() =~= Set::<T>::empty());
        }
        let mut i: usize = 0;
        while i < contents_copy.len()
            invariant
                0 <= i <= contents_copy.len(),
                contents_copy@ == old(self).contents@,
                self.wf(),
                self.split,
                self.bounds == old(self).bounds,
                self.items() == contents_copy@.subrange(0, i as int).to_set(),
                forall|k: int|
                    0 <= k < contents_copy@.len() ==> {
                        &&& (#[trigger] contents_copy@[k]).region_of().valid()
                        &&& intersects_spec(
                            contents_copy@[k].region_of(),
                            Region::Rectangle(self.bounds),
                        )
                    },
            decreases contents_copy.len() - i,
        {
            let item = contents_copy[i];
            self.insert_children(item);
            proof {
                let s = contents_copy@.subrange(0, i as int);
                assert(contents_copy@.subrange(0, i + 1) == s.push(item));
                s.lemma_push_to_set_commute(item);
            }
            i += 1;
        }
        proof {
            assert(contents_copy@.subrange(0, i as int) == contents_copy@);
        }
    }

    fn insert_children(&mut self, value: T)
        requires
            old(self).wf(),
            old(self).split,
            value.region_of().valid(),
        ensures
            final(self).wf(),
            final(self).split,
            final(self).bounds == old(self).bounds,
            final(self).items() == (if intersects_spec(
                value.region_of(),
                Region::Rectangle(old(self).bounds),
            ) {
                old(self).items().insert(value)
            } else {
                old(self).items()
            }),
        decreases old(self).bounds.w + old(self).bounds.h, 0int,
    {
        proof {
            lemma_quadrant_within(self.bounds, 0);
            lemma_quadrant_within(self.bounds, 1);
            lemma_quadrant_within(self.bounds, 2);
            lemma_quadrant_within(self.bounds, 3);
        }
        let ghost oq = *self.children.unwrap();
        match &mut self.children {
            Some(q) => {
                q.top_right.insert(value);
                q.top_left.insert(value);
                q.bottom_left.insert(value);
                q.bottom_right.insert(value);
            },
            None => {},
        }
        proof {
            let nq = *self.children.unwrap();
            let b = self.bounds;
            let all_old = oq.top_right.items() + oq.top_left.items() + oq.bottom_left.items()
                + oq.bottom_right.items();
            let all_new = nq.top_right.items() + nq.top_left.items() + nq.bottom_left.items()
                + nq.bottom_right.items();
            assert forall|w: T| #[trigger] all_new.contains(w) implies {
                &&& intersects_spec(w.region_of(), Region::Rectangle(quadrant(b, 0)))
                    ==> nq.top_right.items().contains(w)
                &&& intersects_spec(w.region_of(), Region::Rectangle(quadrant(b, 1)))
                    ==> nq.top_left.items().contains(w)
                &&& intersects_spec(w.region_of(), Region::Rectangle(quadrant(b, 2)))
                    ==> nq.bottom_left.items().contains(w)
                &&& intersects_spec(w.region_of(), Region::Rectangle(quadrant(b, 3)))
                    ==> nq.bottom_right.items().contains(w)
            } by {
                if w != value {
                    assert(all_old.contains(w));
                }
            }
            assert(covers(nq, b));
            let v = value.region_of();
            let b = self.bounds;
            if intersects_spec(v, Region::Rectangle(b)) {
                let k = lemma_quadrant_cover(v, b);
                assert(self.items() =~= old(self).items().insert(value));
            } else {
                if intersects_spec(v, Region::Rectangle(quadrant(b, 0))) {
                    lemma_meets_enclosing(v, quadrant(b, 0), b);
                }
                if intersects_spec(v, Region::Rectangle(quadrant(b, 1))) {
                    lemma_meets_enclosing(v, quadrant(b, 1), b);
                }
                if intersects_spec(v, Region::Rectangle(quadrant(b, 2))) {
                    lemma_meets_enclosing(v, quadrant(b, 2), b);
                }
                if intersects_spec(v, Region::Rectangle(quadrant(b, 3))) {
                    lemma_meets_enclosing(v, quadrant(b, 3), b);
                }
                assert(self.items() =~= old(self).items());
            }
        }
    }

    /// The values that meet `region`, gathered leaf by leaf.
    pub fn query(&self, region: &Region) -> (found: Vec<T>)
        requires
            self.wf(),
            region.valid(),
        ensures
            found@ == self.query_spec(*region),
        decreases self,
    {
        let mut found: Vec<T> = Vec::new();
        if self.split {
            match &self.children {
                Some(q) => {
                    let mut tl = q.top_left.query(region);
                    let mut bl = q.bottom_left.query(region);
                    let mut br = q.bottom_right.query(region);
                    found = q.top_right.query(region);
                    found.append(&mut tl);
                    found.append(&mut bl);
                    found.append(&mut br);
                },
                None => {},
            }
        } else if region.intersects(&self.bounds) {
            let mut i: usize = 0;
            while i < self.contents.len()
                invariant
                    0 <= i <= self.contents@.len(),
                    self.wf(),
                    !self.split,
                    region.valid(),
                    found@ == meeting(self.contents@.subrange(0, i as int), *region),
                decreases self.contents.len() - i,
            {
                let item = self.contents[i];
                let meets = region.intersects(&item);
                if meets {
                    found.push(item);
                }
                proof {
                    let s = self.contents@.subrange(0, i + 1);
                    assert(s.drop_last() == self.contents@.subrange(0, i as int));
                    assert(s.last() == item);
                }
                i += 1;
            }
            proof {
                assert(self.contents@.subrange(0, i as int) == self.contents@);
            }
        }
        found
    }

    pub fn bounds(&self) -> (b: RectangleData)
        ensures
            b == self.bounds_view(),
    {
        self.bounds
    }

    pub fn is_split(&self) -> (b: bool)
        ensures
            b == self.is_split_view(),
    {
        self.split
    }

    /// The values this node holds directly.
    pub fn contents(&self) -> (c: &Vec<T>)
        ensures
            c@ == self.contents_view(),
    {
        &self.contents
    }
}

/// Every value of `meeting(s, region)` is in `s` and meets `region`, and
/// every value of `s` that meets `region` is there.
pub proof fn lemma_meeting<T: HasRegion>(s: Seq<T>, region: Region)
    ensures
        forall|k: int|
            0 <= k < meeting(s, region).len() ==> {
                &&& s.contains(#[trigger] meeting(s, region)[k])
                &&& intersects_spec(region, meeting(s, region)[k].region_of())
            },
        forall|v: T|
            s.contains(v) && intersects_spec(region, v.region_of()) ==> #[trigger] meeting(
                s,
                region,
            ).contains(v),
    decreases s.len(),
{
    if s.len() > 0 {
        let rest = s.drop_last();
        lemma_meeting(rest, region);
        assert forall|k: int| 0 <= k < meeting(s, region).len() implies {
            &&& s.contains(#[trigger] meeting(s, region)[k])
            &&& intersects_spec(region, meeting(s, region)[k].region_of())
        } by {
            if k < meeting(rest, region).len() {
                let j = choose|j: int| 0 <= j < rest.len() && rest[j] == meeting(rest, region)[k];
                assert(s[j] == rest[j]);
            } else {
                assert(s[s.len() - 1] == s.last());
            }
        }
        assert forall|v: T| s.contains(v) && intersects_spec(region, v.region_of()) implies #[trigger] meeting(
            s,
            region,
        ).contains(v) by {
            let j = choose|j: int| 0 <= j < s.len() && s[j] == v;
            lemma_meeting_keeps(s, region, j);
        }
    }
}

proof fn lemma_meeting_keeps<T: HasRegion>(s: Seq<T>, region: Region, j: int)
    requires
        0 <= j < s.len(),
        intersects_spec(region, s[j].region_of()),
    ensures
        meeting(s, region).contains(s[j]),
    decreases s.len(),
{
    let rest = s.drop_last();
    let m = meeting(rest, region);
    if j < s.len() - 1 {
        assert(rest[j] == s[j]);
        lemma_meeting_keeps(rest, region, j);
        let i = choose|i: int| 0 <= i < m.len() && m[i] == s[j];
        if intersects_spec(region, s.last().region_of()) {
            assert(m.push(s.last())[i] == s[j]);
        }
    } else {
        assert(m.push(s.last())[m.len() as int] == s[j]);
    }
}

impl<T: HasRegion + Copy> QuadTree<T> {
    /// `query` returns only values that the tree holds and that meet the
    /// region asked about.
    pub proof fn lemma_query_sound(self, region: Region)
        requires
            self.wf(),
        ensures
            forall|k: int|
                0 <= k < self.query_spec(region).len() ==> {
                    &&& self.items().contains(#[trigger] self.query_spec(region)[k])
                    &&& intersects_spec(self.query_spec(region)[k].region_of(), region)
                },
        decreases self,
    {
        let r = self.query_spec(region);
        if self.split {
            let q = *self.children.unwrap();
            q.top_right.lemma_query_sound(region);
            q.top_left.lemma_query_sound(region);
            q.bottom_left.lemma_query_sound(region);
            q.bottom_right.lemma_query_sound(region);
            let a = q.top_right.query_spec(region);
            let b = q.top_left.query_spec(region);
            let c = q.bottom_left.query_spec(region);
            let d = q.bottom_right.query_spec(region);
            assert forall|k: int| 0 <= k < r.len() implies {
                &&& self.items().contains(#[trigger] r[k])
                &&& intersects_spec(r[k].region_of(), region)
            } by {
                if k < a.len() {
                    assert(r[k] == a[k]);
                } else if k < a.len() + b.len() {
                    assert(r[k] == b[k - a.len()]);
                } else if k < a.len() + b.len() + c.len() {
                    assert(r[k] == c[k - a.len() - b.len()]);
                } else {
                    assert(r[k] == d[k - a.len() - b.len() - c.len()]);
                }
                lemma_intersects_symmetric(r[k].region_of(), region);
            }
        } else if intersects_spec(region, Region::Rectangle(self.bounds)) {
            lemma_meeting(self.contents@, region);
            assert forall|k: int| 0 <= k < r.len() implies {
                &&& self.items().contains(#[trigger] r[k])
                &&& intersects_spec(r[k].region_of(), region)
            } by {
                lemma_intersects_symmetric(r[k].region_of(), region);
            }
        }
    }

    /// Asking about a rectangle that encloses the tree's bounds returns every
    /// value the tree holds.
    pub proof fn lemma_query_enclosing(self, outer: RectangleData)
        requires
            self.wf(),
            self.bounds_view().within(outer),
        ensures
            forall|v: T| #[trigger] self.items().contains(v) ==> self.query_spec(
                Region::Rectangle(outer),
            ).contains(v),
        decreases self,
    {
        let region = Region::Rectangle(outer);
        let r = self.query_spec(region);
        if self.split {
            let q = *self.children.unwrap();
            lemma_quadrant_within(self.bounds, 0);
            lemma_quadrant_within(self.bounds, 1);
            lemma_quadrant_within(self.bounds, 2);
            lemma_quadrant_within(self.bounds, 3);
            q.top_right.lemma_query_enclosing(outer);
            q.top_left.lemma_query_enclosing(outer);
            q.bottom_left.lemma_query_enclosing(outer);
            q.bottom_right.lemma_query_enclosing(outer);
            let a = q.top_right.query_spec(region);
            let b = q.top_left.query_spec(region);
            let c = q.bottom_left.query_spec(region);
            let d = q.bottom_right.query_spec(region);
            assert forall|v: T| #[trigger] self.items().contains(v) implies r.contains(v) by {
                if q.top_right.items().contains(v) {
                    assert(a.contains(v));
                    let i = choose|i: int| 0 <= i < a.len() && a[i] == v;
                    assert(r[i] == v);
                } else if q.top_left.items().contains(v) {
                    assert(b.contains(v));
                    let i = choose|i: int| 0 <= i < b.len() && b[i] == v;
                    assert(r[a.len() + i] == v);
                } else if q.bottom_left.items().contains(v) {
                    assert(c.contains(v));
                    let i = choose|i: int| 0 <= i < c.len() && c[i] == v;
                    assert(r[a.len() + b.len() + i] == v);
                } else {
                    assert(q.bottom_right.items().contains(v));
                    assert(d.contains(v));
                    let i = choose|i: int| 0 <= i < d.len() && d[i] == v;
                    assert(r[a.len() + b.len() + c.len() + i] == v);
                }
            }
        } else {
            lemma_meeting(self.contents@, region);
            assert(intersects_spec(region, Region::Rectangle(self.bounds)));
            assert forall|v: T| #[trigger] self.items().contains(v) implies r.contains(v) by {
                let j = choose|j: int| 0 <= j < self.contents@.len() && self.contents@[j] == v;
                lemma_meets_enclosing(v.region_of(), self.bounds, outer);
                lemma_intersects_symmetric(v.region_of(), region);
            }
        }
    }

    /// A query over the tree's own bounds returns every value the tree holds,
    /// and only values that meet those bounds.
    pub proof fn lemma_query_full_bounds(self)
        requires
            self.wf(),
        ensures
            forall|v: T| #[trigger] self.items().contains(v) ==> self.query_spec(
                Region::Rectangle(self.bounds_view()),
            ).contains(v),
    {
        self.lemma_query_enclosing(self.bounds);
    }
}

impl<T: HasRegion + Copy> QuadTree<T> {
    /// Quadrant `k` of a node that has split: top-right, top-left,
    /// bottom-left, bottom-right.
    pub closed spec fn quadrant_tree(self, k: int) -> QuadTree<T> {
        let q = *self.children.unwrap();
        if k == 0 {
            q.top_right
        } else if k == 1 {
            q.top_left
        } else if k == 2 {
            q.bottom_left
        } else {
            q.bottom_right
        }
    }

    /// A node that has not split holds its values directly, and a query
    /// returns those that meet the region, when its bounds meet the region.
    pub proof fn lemma_query_leaf(self, region: Region)
        requires
            self.wf(),
            !self.is_split_view(),
        ensures
            self.items() == self.contents_view().to_set(),
            self.query_spec(region) == if intersects_spec(
                region,
                Region::Rectangle(self.bounds_view()),
            ) {
                meeting(self.contents_view(), region)
            } else {
                Seq::empty()
            },
            forall|k: int|
                0 <= k < self.contents_view().len() ==> (#[trigger] self.contents_view()[k]).region_of().valid(),
    {
    }

    /// A node that has split holds nothing directly; its four quadrants have
    /// the quadrant bounds, hold all its values, and answer its queries in
    /// order.
    pub proof fn lemma_split_shape(self, region: Region)
        requires
            self.wf(),
            self.is_split_view(),
        ensures
            self.contents_view().len() == 0,
            splittable(self.bounds_view()),
            forall|k: int|
                0 <= k < 4 ==> (#[trigger] self.quadrant_tree(k)).wf() && self.quadrant_tree(
                    k,
                ).bounds_view() == quadrant(self.bounds_view(), k),
            self.items() == self.quadrant_tree(0).items() + self.quadrant_tree(1).items()
                + self.quadrant_tree(2).items() + self.quadrant_tree(3).items(),
            self.query_spec(region) == self.quadrant_tree(0).query_spec(region)
                + self.quadrant_tree(1).query_spec(region) + self.quadrant_tree(2).query_spec(region)
                + self.quadrant_tree(3).query_spec(region),
    {
    }

    /// A query returns every value of the tree that shares a grid point with
    /// the region inside the tree's bounds.
    pub proof fn lemma_query_complete(self, region: Region, v: T, p: PointData)
        requires
            self.wf(),
            region.valid(),
            self.items().contains(v),
            contains_point(v.region_of(), p),
            contains_point(region, p),
            point_rect_spec(p, self.bounds_view()),
        ensures
            self.query_spec(region).contains(v),
        decreases self,
    {
        let b = self.bounds;
        if self.split {
            let q = *self.children.unwrap();
            assert(Region::Point(p).valid());
            let k = lemma_quadrant_cover(Region::Point(p), b);
            lemma_covering_meets_rect(v.region_of(), p, quadrant(b, k));
            lemma_quadrant_within(b, k);
            assert(covers(q, b));
            assert((q.top_right.items() + q.top_left.items() + q.bottom_left.items()
                + q.bottom_right.items()).contains(v));
            let a = q.top_right.query_spec(region);
            let bb = q.top_left.query_spec(region);
            let c = q.bottom_left.query_spec(region);
            let d = q.bottom_right.query_spec(region);
            let r = self.query_spec(region);
            if k == 0 {
                q.top_right.lemma_query_complete(region, v, p);
                let i = choose|i: int| 0 <= i < a.len() && a[i] == v;
                assert(r[i] == v);
            } else if k == 1 {
                q.top_left.lemma_query_complete(region, v, p);
                let i = choose|i: int| 0 <= i < bb.len() && bb[i] == v;
                assert(r[a.len() + i] == v);
            } else if k == 2 {
                q.bottom_left.lemma_query_complete(region, v, p);
                let i = choose|i: int| 0 <= i < c.len() && c[i] == v;
                assert(r[a.len() + bb.len() + i] == v);
            } else {
                q.bottom_right.lemma_query_complete(region, v, p);
                let i = choose|i: int| 0 <= i < d.len() && d[i] == v;
                assert(r[a.len() + bb.len() + c.len() + i] == v);
            }
        } else {
            let j = choose|j: int| 0 <= j < self.contents@.len() && self.contents@[j] == v;
            assert(v.region_of().valid());
            lemma_covering_meets_rect(region, p, b);
            lemma_sharing_point_meets(region, v.region_of(), p);
            lemma_meeting(self.contents@, region);
        }
    }
}

} // verus!
