use vstd::prelude::*;

use crate::interval::Interval;

verus! {

/// The two roots at which a ray meets a sphere, as order keys, nearer first
/// when the pair is well formed.
#[derive(Clone, Copy, Debug, PartialEq, Eq)]
pub struct RootPair {
    pub near: i64,
    pub far: i64,
}

/// The nearest hit of a scan: the member that was hit and the ray parameter.
#[derive(Clone, Copy, Debug, PartialEq, Eq)]
pub struct Hit {
    pub index: usize,
    pub t: i64,
}

impl RootPair {
    /// The smaller root comes first.
    pub open spec fn wf(self) -> bool {
        self.near <= self.far
    }
}

/// The root that a sphere reports within `(lo, hi)`: the first of the pair
/// strictly inside, trying the nearer one first.
pub open spec fn root_inside(r: RootPair, lo: i64, hi: i64) -> Option<i64> {
    if lo < r.near && r.near < hi {
        Some(r.near)
    } else if lo < r.far && r.far < hi {
        Some(r.far)
    } else {
        None
    }
}

/// What member `m` reports within `(lo, hi)`; `None` stands for a member
/// that the ray misses altogether.
pub open spec fn member_hit(m: Option<RootPair>, lo: i64, hi: i64) -> Option<i64> {
    match m {
        Some(r) => root_inside(r, lo, hi),
        None => None,
    }
}

/// The scan over the first `n` members, each tested against the interval
/// whose upper bound has been tightened to the closest hit so far.
pub open spec fn scan(ms: Seq<Option<RootPair>>, lo: i64, hi: i64, n: nat) -> Option<Hit>
    decreases n,
{
    if n == 0 {
        None
    } else {
        let prev = scan(ms, lo, hi, (n - 1) as nat);
        let bound = match prev {
            Some(h) => h.t,
            None => hi,
        };
        match member_hit(ms[n - 1], lo, bound) {
            Some(t) => Some(Hit { index: (n - 1) as usize, t }),
            None => prev,
        }
    }
}

/// Member `k` has a root `t` strictly inside `(lo, hi)`.
pub open spec fn qualifies(ms: Seq<Option<RootPair>>, lo: i64, hi: i64, k: int, t: i64) -> bool {
    0 <= k < ms.len() && match ms[k] {
        Some(r) => (t == r.near || t == r.far) && lo < t && t < hi,
        None => false,
    }
}

/// `h` is the nearest root strictly inside `(lo, hi)` over the first `n`
/// members, the earliest member winning a tie.
pub open spec fn is_closest(ms: Seq<Option<RootPair>>, lo: i64, hi: i64, n: int, h: Hit) -> bool {
    h.index < n && qualifies(ms, lo, hi, h.index as int, h.t) && forall|k: int, t: i64|
        #![trigger qualifies(ms, lo, hi, k, t)]
        0 <= k < n && qualifies(ms, lo, hi, k, t) ==> h.t <= t && (t == h.t ==> h.index <= k)
}

/// No root of the first `n` members lies strictly inside `(lo, hi)`.
pub open spec fn none_qualifies(ms: Seq<Option<RootPair>>, lo: i64, hi: i64, n: int) -> bool {
    forall|k: int, t: i64|
        #![trigger qualifies(ms, lo, hi, k, t)]
        0 <= k < n ==> !qualifies(ms, lo, hi, k, t)
}

pub open spec fn all_wf(ms: Seq<Option<RootPair>>) -> bool {
    forall|k: int|
        0 <= k < ms.len() ==> match #[trigger] ms[k] {
            Some(r) => r.wf(),
            None => true,
        }
}

/// With its roots in order, a sphere reports the nearest root inside the
/// interval, and nothing only when no root lies there.
pub proof fn lemma_root_inside_nearest(r: RootPair, lo: i64, hi: i64)
    requires
        r.wf(),
    ensures
        match root_inside(r, lo, hi) {
            Some(t) => (t == r.near || t == r.far) && lo < t < hi && (lo < r.near < hi ==> t
                <= r.near) && (lo < r.far < hi ==> t <= r.far),
            None => !(lo < r.near < hi) && !(lo < r.far < hi),
        },
{
}

/// Tightening the bound as the scan goes gives the same hit as looking at
/// every root of every member against the whole interval: the nearest one,
/// or none when no member has a root inside.
pub proof fn lemma_scan_is_closest(ms: Seq<Option<RootPair>>, lo: i64, hi: i64, n: nat)
    requires
        n <= ms.len() <= usize::MAX,
        all_wf(ms),
    ensures
        match scan(ms, lo, hi, n) {
            Some(h) => is_closest(ms, lo, hi, n as int, h),
            None => none_qualifies(ms, lo, hi, n as int),
        },
    decreases n,
{
    if n > 0 {
        let m = (n - 1) as int;
        lemma_scan_is_closest(ms, lo, hi, (n - 1) as nat);
        let prev = scan(ms, lo, hi, (n - 1) as nat);
        let bound = match prev {
            Some(h) => h.t,
            None => hi,
        };
        assert(bound <= hi);
        match ms[m] {
            Some(r) => {
                assert(r.wf());
                lemma_root_inside_nearest(r, lo, bound);
            },
            None => {},
        }
        match scan(ms, lo, hi, n) {
            Some(h) => {
                assert(h.index < n);
                assert(qualifies(ms, lo, hi, h.index as int, h.t));
                assert forall|k: int, t: i64|
                    #![trigger qualifies(ms, lo, hi, k, t)]
                    0 <= k < n && qualifies(ms, lo, hi, k, t) implies h.t <= t && (t == h.t
                        ==> h.index <= k) by {
                    if k < m {
                        if member_hit(ms[m], lo, bound).is_some() {
                            assert(h.t < bound);
                        }
                    }
                }
                assert(is_closest(ms, lo, hi, n as int, h));
            },
            None => {
                assert forall|k: int, t: i64|
                    #![trigger qualifies(ms, lo, hi, k, t)]
                    0 <= k < n implies !qualifies(ms, lo, hi, k, t) by {
                    if k < m {
                    }
                }
            },
        }
    }
}

impl RootPair {
    pub fn new(near: i64, far: i64) -> (r: RootPair)
        ensures
            r.near == near,
            r.far == far,
    {
        RootPair { near, far }
    }

    /// The root reported within `interval`: the nearer root if it lies
    /// strictly inside, else the farther one if it does, else none.
    pub fn hit(&self, interval: Interval) -> (r: Option<i64>)
        ensures
            r == root_inside(*self, interval.min, interval.max),
            self.wf() ==> match r {
                Some(t) => (t == self.near || t == self.far) && interval.spec_surrounds(t as int)
                    && (interval.spec_surrounds(self.near as int) ==> t <= self.near),
                None => !interval.spec_surrounds(self.near as int) && !interval.spec_surrounds(
                    self.far as int,
                ),
            },
    {
        proof {
            if self.wf() {
                lemma_root_inside_nearest(*self, interval.min, interval.max);
            }
        }
        if interval.surrounds(self.near) {
            Some(self.near)
        } else if interval.surrounds(self.far) {
            Some(self.far)
        } else {
            None
        }
    }
}

/// The nearest hit of a ray among the members of a scene, strictly inside
/// `interval`.
///
/// Each member is given by the roots at which the ray meets it, or `None`
/// where it misses. Members are tested in order against an interval whose
/// upper bound shrinks to the closest hit found so far, so a later member
/// replaces the current hit only when it is strictly nearer.
pub fn closest_hit(members: &[Option<RootPair>], interval: Interval) -> (r: Option<Hit>)
    ensures
        r == scan(members@, interval.min, interval.max, members@.len()),
        all_wf(members@) ==> match r {
            Some(h) => is_closest(members@, interval.min, interval.max, members@.len() as int, h),
            None => none_qualifies(members@, interval.min, interval.max, members@.len() as int),
        },
{
    let mut best: Option<Hit> = None;
    let mut closest_so_far: i64 = interval.max;
    let mut k: usize = 0;
    while k < members.len()
        invariant
            k <= members@.len(),
            best == scan(members@, interval.min, interval.max, k as nat),
            closest_so_far == match best {
                Some(h) => h.t,
                None => interval.max,
            },
        decreases members@.len() - k,
    {
        if let Some(roots) = members[k] {
            if let Some(t) = roots.hit(Interval::new(interval.min, closest_so_far)) {
                closest_so_far = t;
                best = Some(Hit { index: k, t });
            }
        }
        k = k + 1;
    }
    proof {
        if all_wf(members@) {
            lemma_scan_is_closest(members@, interval.min, interval.max, members@.len());
        }
    }
    best
}

} // verus!
