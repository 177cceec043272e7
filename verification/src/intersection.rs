//! Where rays meet shapes, and which of those places is seen.
use crate::float::MyFloat;
use crate::shape::Shape;
use vstd::prelude::*;

verus! {

/// A place where a ray meets a shape: `t` is how far along the ray, `s` a
/// copy of the shape.
#[derive(Clone, Copy, Debug)]
pub struct Intersection {
    pub t: MyFloat,
    pub s: Shape,
}

/// A list of intersections, in no particular order unless sorted.
pub struct Intersections(pub Vec<Intersection>);

impl View for Intersections {
    type V = Seq<Intersection>;

    open spec fn view(&self) -> Seq<Intersection> {
        self.0@
    }
}

/// Whether some intersection lies at or ahead of the ray's origin.
pub open spec fn has_hit(xs: Seq<Intersection>) -> bool {
    exists|i: int| 0 <= i < xs.len() && (#[trigger] xs[i]).t@ >= 0
}

/// Whether `xs[k]` is the visible intersection: it is not behind the ray's
/// origin, no other such intersection is nearer, and none before it in the
/// list is as near.
pub open spec fn is_hit(xs: Seq<Intersection>, k: int) -> bool {
    &&& 0 <= k < xs.len()
    &&& xs[k].t@ >= 0
    &&& forall|i: int| 0 <= i < xs.len() && (#[trigger] xs[i]).t@ >= 0 ==> xs[k].t@ <= xs[i].t@
    &&& forall|i: int| 0 <= i < k && (#[trigger] xs[i]).t@ >= 0 ==> xs[k].t@ < xs[i].t@
}

/// The visible intersection, if there is one.
pub open spec fn spec_hit(xs: Seq<Intersection>) -> Option<Intersection> {
    if has_hit(xs) {
        Some(xs[choose|k: int| is_hit(xs, k)])
    } else {
        None
    }
}

/// Whether the list is in ascending order of `t`.
pub open spec fn is_sorted(xs: Seq<Intersection>) -> bool {
    forall|i: int, j: int| 0 <= i <= j < xs.len() ==> xs[i].t@ <= xs[j].t@
}

/// The test for an intersection at exactly `t`.
pub open spec fn has_t(t: int) -> spec_fn(Intersection) -> bool {
    |x: Intersection| x.t@ == t
}

/// The intersections of the list that lie at exactly `t`, in the order of
/// the list.
pub open spec fn with_t(xs: Seq<Intersection>, t: int) -> Seq<Intersection> {
    xs.filter(has_t(t))
}

/// Whether `out` is `input` sorted by `t` with intersections at the same `t`
/// kept in their order.
pub open spec fn is_stable_sort_of(out: Seq<Intersection>, input: Seq<Intersection>) -> bool {
    &&& is_sorted(out)
    &&& forall|t: int| with_t(out, t) == with_t(input, t)
}

impl Intersection {
    /// Whether the distances are equal within the tolerance and the shapes
    /// are the same shape.
    pub open spec fn approx_eq(self, rhs: Intersection) -> bool {
        self.t.approx_eq(rhs.t) && self.s.kind == rhs.s.kind
    }

    pub fn new(t: MyFloat, s: &Shape) -> (i: Intersection)
        ensures
            i == (Intersection { t, s: *s }),
    {
        Intersection { t, s: *s }
    }

    pub fn equals(&self, rhs: &Intersection) -> (r: bool)
        ensures
            r == self.approx_eq(*rhs),
    {
        self.t.equals(rhs.t) && self.s.equals(&rhs.s)
    }
}

impl Intersections {
    pub fn new() -> (xs: Intersections)
        ensures
            xs@ == Seq::<Intersection>::empty(),
    {
        Intersections(Vec::new())
    }

    /// The list with the given intersections in the given order.
    pub fn from(values: &[Intersection]) -> (xs: Intersections)
        ensures
            xs@ == values@,
    {
        let mut list = Intersections::new();
        let mut i: usize = 0;
        while i < values.len()
            invariant
                i <= values.len(),
                list@ == values@.take(i as int),
            decreases values.len() - i,
        {
            list.push(&values[i]);
            assert(list@ =~= values@.take(i + 1));
            i += 1;
        }
        assert(list@ =~= values@);
        list
    }

    /// The visible intersection: among those that are not behind the ray's
    /// origin, the nearest, and of several equally near the first in the
    /// list.
    pub fn hit(&self) -> (closest: Option<Intersection>)
        ensures
            closest == spec_hit(self@),
            closest is None <==> !has_hit(self@),
            closest matches Some(h) ==> exists|k: int| is_hit(self@, k) && h == self@[k],
    {
        let mut closest: Option<Intersection> = None;
        let ghost mut at: int = 0;
        let mut n: usize = 0;
        while n < self.0.len()
            invariant
                n <= self.0.len(),
                closest is None ==> forall|i: int| 0 <= i < n ==> (#[trigger] self@[i]).t@ < 0,
                closest matches Some(h) ==> is_hit(self@.take(n as int), at) && h == self@[at],
            decreases self.0.len() - n,
        {
            let i = &self.0[n];
            let ghost before = self@.take(n as int);
            let ghost after = self@.take(n + 1);
            if i.t.raw >= 0 {
                match closest {
                    None => {
                        closest = Some(*i);
                        proof {
                            at = n as int;
                        }
                    },
                    Some(thing) => {
                        if i.t.raw < thing.t.raw {
                            closest = Some(*i);
                            proof {
                                assert forall|j: int|
                                    0 <= j < after.len() && (#[trigger] after[j]).t@
                                        >= 0 implies i.t@ <= after[j].t@ by {
                                    if j < n {
                                        assert(before[j].t@ >= 0);
                                    }
                                }
                                assert forall|j: int|
                                    0 <= j < n && (#[trigger] after[j]).t@ >= 0 implies i.t@
                                    < after[j].t@ by {
                                    assert(before[j].t@ >= 0);
                                }
                                at = n as int;
                            }
                        }
                    },
                }
            }
            proof {
                if closest is Some && at < n {
                    assert forall|j: int|
                        0 <= j < after.len() && (#[trigger] after[j]).t@ >= 0 implies after[at].t@
                        <= after[j].t@ by {
                        if j < n {
                            assert(before[j].t@ >= 0);
                        }
                    }
                    assert forall|j: int|
                        0 <= j < at && (#[trigger] after[j]).t@ >= 0 implies after[at].t@
                        < after[j].t@ by {
                        assert(before[j].t@ >= 0);
                    }
                }
            }
            n += 1;
        }
        proof {
            assert(self@.take(n as int) =~= self@);
            match closest {
                None => {},
                Some(h) => {
                    lemma_hit_unique(self@, at);
                },
            }
        }
        closest
    }

    pub fn push(&mut self, i: &Intersection)
        ensures
            final(self)@ == old(self)@.push(*i),
    {
        self.0.push(*i);
    }

    pub fn len(&self) -> (n: usize)
        ensures
            n == self@.len(),
    {
        self.0.len()
    }

    pub fn get(&self, index: usize) -> (i: &Intersection)
        requires
            index < self@.len(),
        ensures
            *i == self@[index as int],
    {
        &self.0[index]
    }

    /// Sorts the list by `t`, keeping intersections at the same `t` in their
    /// order.
    pub fn sort(&mut self)
        ensures
            is_stable_sort_of(final(self)@, old(self)@),
            final(self)@.to_multiset() == old(self)@.to_multiset(),
    {
        let mut out: Vec<Intersection> = Vec::new();
        let mut n: usize = 0;
        assert(self@.take(0) =~= Seq::<Intersection>::empty());
        while n < self.0.len()
            invariant
                n <= self.0.len(),
                self@ == old(self)@,
                is_sorted(out@),
                out@.to_multiset() == self@.take(n as int).to_multiset(),
                forall|t: int| with_t(out@, t) == with_t(self@.take(n as int), t),
            decreases self.0.len() - n,
        {
            let x = self.0[n];
            let mut p: usize = out.len();
            while p > 0 && out[p - 1].t.raw > x.t.raw
                invariant
                    p <= out.len(),
                    forall|j: int| p <= j < out.len() ==> (#[trigger] out@[j]).t@ > x.t@,
                decreases p,
            {
                p -= 1;
            }
            proof {
                lemma_insert_keeps_order(out@, self@.take(n as int), p as int, x);
                assert(self@.take(n as int).push(x) =~= self@.take(n + 1));
            }
            out.insert(p, x);
            n += 1;
        }
        assert(self@.take(n as int) =~= self@);
        self.0 = out;
    }
}

/// There is only one visible intersection.
pub proof fn lemma_hit_unique(xs: Seq<Intersection>, k: int)
    requires
        is_hit(xs, k),
    ensures
        has_hit(xs),
        spec_hit(xs) == Some(xs[k]),
{
    assert(xs[k].t@ >= 0);
    let c = choose|c: int| is_hit(xs, c);
    assert(is_hit(xs, c));
    if c < k {
        assert(xs[c].t@ >= 0);
    } else if k < c {
        assert(xs[k].t@ >= 0);
    }
}

/// Every list with an intersection that is not behind the ray's origin has a
/// visible intersection.
pub proof fn lemma_hit_exists(xs: Seq<Intersection>) -> (k: int)
    requires
        has_hit(xs),
    ensures
        is_hit(xs, k),
    decreases xs.len(),
{
    let last = xs.len() - 1;
    let front = xs.drop_last();
    if has_hit(front) {
        let f = lemma_hit_exists(front);
        if xs[last].t@ >= 0 && xs[last].t@ < front[f].t@ {
            assert forall|i: int|
                0 <= i < xs.len() && (#[trigger] xs[i]).t@ >= 0 implies xs[last].t@
                <= xs[i].t@ by {
                if i < last {
                    assert(front[i].t@ >= 0);
                }
            }
            assert forall|i: int| 0 <= i < last && (#[trigger] xs[i]).t@ >= 0 implies xs[last].t@
                < xs[i].t@ by {
                assert(front[i].t@ >= 0);
            }
            last
        } else {
            assert forall|i: int| 0 <= i < xs.len() && (#[trigger] xs[i]).t@ >= 0 implies xs[f].t@
                <= xs[i].t@ by {
                if i < last {
                    assert(front[i].t@ >= 0);
                }
            }
            assert forall|i: int| 0 <= i < f && (#[trigger] xs[i]).t@ >= 0 implies xs[f].t@
                < xs[i].t@ by {
                assert(front[i].t@ >= 0);
            }
            f
        }
    } else {
        let w = choose|i: int| 0 <= i < xs.len() && (#[trigger] xs[i]).t@ >= 0;
        if w < last {
            assert(front[w].t@ >= 0);
        }
        assert forall|i: int| 0 <= i < last implies (#[trigger] xs[i]).t@ < 0 by {
            assert(front[i] == xs[i]);
        }
        last
    }
}

/// Which intersection is visible does not depend on the order of the list,
/// except that of several equally near ones the first is chosen: two lists
/// with the same intersections have their visible intersection at the same
/// distance, or both have none.
pub proof fn lemma_hit_ignores_order(xs: Seq<Intersection>, ys: Seq<Intersection>)
    requires
        xs.to_multiset() == ys.to_multiset(),
    ensures
        spec_hit(xs) is None <==> spec_hit(ys) is None,
        spec_hit(xs) matches Some(a) ==> spec_hit(ys) matches Some(b) ==> a.t == b.t,
{
    if has_hit(xs) {
        lemma_hit_carries_over(xs, ys);
    }
    if has_hit(ys) {
        lemma_hit_carries_over(ys, xs);
    }
}

/// The visible intersection of a list is not nearer than that of a list with
/// the same items.
proof fn lemma_hit_carries_over(xs: Seq<Intersection>, ys: Seq<Intersection>)
    requires
        xs.to_multiset() == ys.to_multiset(),
        has_hit(xs),
    ensures
        has_hit(ys),
        spec_hit(xs) matches Some(a) && spec_hit(ys) matches Some(b) && b.t@ <= a.t@,
{
    let a = lemma_hit_exists(xs);
    lemma_hit_unique(xs, a);
    let a2 = lemma_item_occurs(xs, ys, a);
    assert(ys[a2].t@ >= 0);
    let b = lemma_hit_exists(ys);
    lemma_hit_unique(ys, b);
}

/// Every item of a list occurs in each list with the same items.
proof fn lemma_item_occurs(xs: Seq<Intersection>, ys: Seq<Intersection>, i: int) -> (j: int)
    requires
        xs.to_multiset() == ys.to_multiset(),
        0 <= i < xs.len(),
    ensures
        0 <= j < ys.len(),
        ys[j] == xs[i],
{
    vstd::seq_lib::to_multiset_contains(xs, xs[i]);
    vstd::seq_lib::to_multiset_contains(ys, xs[i]);
    assert(xs.contains(xs[i]));
    assert(ys.contains(xs[i]));
    choose|j: int| 0 <= j < ys.len() && ys[j] == xs[i]
}

/// Putting `x` behind the last intersection that is not farther keeps a
/// sorted list sorted, with the same items as before and `x`, and every run
/// of equally far intersections in the order in which they came.
proof fn lemma_insert_keeps_order(
    out: Seq<Intersection>,
    seen: Seq<Intersection>,
    p: int,
    x: Intersection,
)
    requires
        is_sorted(out),
        0 <= p <= out.len(),
        forall|j: int| p <= j < out.len() ==> (#[trigger] out[j]).t@ > x.t@,
        p > 0 ==> out[p - 1].t@ <= x.t@,
        out.to_multiset() == seen.to_multiset(),
        forall|t: int| with_t(out, t) == with_t(seen, t),
    ensures
        is_sorted(out.insert(p, x)),
        out.insert(p, x).to_multiset() == seen.push(x).to_multiset(),
        forall|t: int| with_t(out.insert(p, x), t) == with_t(seen.push(x), t),
{
    lemma_insert_sorted(out, p, x);
    assert(out.insert(p, x).to_multiset() == seen.push(x).to_multiset()) by {
        vstd::seq_lib::to_multiset_insert(out, p, x);
        vstd::seq_lib::to_multiset_build(seen, x);
    }
    assert forall|t: int| with_t(out.insert(p, x), t) == with_t(seen.push(x), t) by {
        assert(with_t(out, t) == with_t(seen, t));
        lemma_insert_keeps_runs(out, seen, p, x, t);
    }
}

proof fn lemma_insert_sorted(out: Seq<Intersection>, p: int, x: Intersection)
    requires
        is_sorted(out),
        0 <= p <= out.len(),
        forall|j: int| p <= j < out.len() ==> (#[trigger] out[j]).t@ > x.t@,
        p > 0 ==> out[p - 1].t@ <= x.t@,
    ensures
        is_sorted(out.insert(p, x)),
{
    let new = out.insert(p, x);
    out.insert_ensures(p, x);
    assert forall|i: int, j: int| 0 <= i <= j < new.len() implies new[i].t@ <= new[j].t@ by {
        if i < p {
            assert(new[i] == out[i]);
            assert(out[i].t@ <= out[p - 1].t@);
            if j > p {
                assert(new[j] == out[j - 1]);
            } else if j < p {
                assert(new[j] == out[j]);
            }
        } else if i == p {
            if j > p {
                assert(new[j] == out[j - 1]);
            }
        } else {
            assert(new[i] == out[i - 1]);
            assert(new[j] == out[j - 1]);
        }
    }
}

proof fn lemma_insert_keeps_runs(
    out: Seq<Intersection>,
    seen: Seq<Intersection>,
    p: int,
    x: Intersection,
    t: int,
)
    requires
        0 <= p <= out.len(),
        forall|j: int| p <= j < out.len() ==> (#[trigger] out[j]).t@ > x.t@,
        with_t(out, t) == with_t(seen, t),
    ensures
        with_t(out.insert(p, x), t) == with_t(seen.push(x), t),
{
    let test = has_t(t);
    let front = out.subrange(0, p);
    let back = out.subrange(p, out.len() as int);
    assert(out =~= front + back);
    assert(out.insert(p, x) =~= front.push(x) + back);
    Seq::filter_distributes_over_add(front, back, test);
    Seq::filter_distributes_over_add(front.push(x), back, test);
    front.lemma_filter_push(x, test);
    seen.lemma_filter_push(x, test);
    if x.t@ == t {
        assert forall|i: int| 0 <= i < back.len() implies !test(#[trigger] back[i]) by {
            assert(back[i] == out[p + i]);
        }
        back.lemma_all_neg_filter_empty(test);
        assert(back.filter(test) =~= Seq::<Intersection>::empty());
        assert(front.filter(test) + back.filter(test) =~= front.filter(test));
        assert(front.filter(test).push(x) + back.filter(test) =~= front.filter(test).push(x));
    }
}

} // verus!
