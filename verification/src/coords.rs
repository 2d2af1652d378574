//! Exact model of the coordinate-normalization stage.
//!
//! The projection stage hands back one two-dimensional point per record; the
//! points are carried as fixed-point integers. Normalization rescales every
//! coordinate into the unit square `[0,1] x [0,1]` using the global minimum
//! and maximum over all coordinate values of both dimensions combined. Each
//! rescaled coordinate is kept as an exact fraction `num / den`, so the
//! degenerate case (all values equal) has a defined constant fallback instead
//! of a division by zero.

use vstd::prelude::*;

verus! {

/// A projected point, both coordinates as fixed-point integers.
#[derive(Clone, Copy, PartialEq, Eq, Structural, Debug)]
pub struct Point2 {
    pub x: i32,
    pub y: i32,
}

/// A point of the unit square, each coordinate the exact fraction
/// `num / den` with `0 <= num <= den` and `den > 0`.
#[derive(Clone, Copy, PartialEq, Eq, Structural, Debug)]
pub struct UnitPoint {
    pub num_x: u64,
    pub num_y: u64,
    pub den: u64,
}

/// The smaller coordinate of one point.
pub open spec fn point_min(p: Point2) -> int {
    if p.x <= p.y {
        p.x as int
    } else {
        p.y as int
    }
}

/// The larger coordinate of one point.
pub open spec fn point_max(p: Point2) -> int {
    if p.x >= p.y {
        p.x as int
    } else {
        p.y as int
    }
}

/// The minimum over all coordinate values of both dimensions combined.
pub open spec fn glob_min(ps: Seq<Point2>) -> int
    recommends
        ps.len() > 0,
    decreases ps.len(),
{
    if ps.len() <= 1 {
        point_min(ps[0])
    } else if glob_min(ps.drop_last()) <= point_min(ps.last()) {
        glob_min(ps.drop_last())
    } else {
        point_min(ps.last())
    }
}

/// The maximum over all coordinate values of both dimensions combined.
pub open spec fn glob_max(ps: Seq<Point2>) -> int
    recommends
        ps.len() > 0,
    decreases ps.len(),
{
    if ps.len() <= 1 {
        point_max(ps[0])
    } else if glob_max(ps.drop_last()) >= point_max(ps.last()) {
        glob_max(ps.drop_last())
    } else {
        point_max(ps.last())
    }
}

/// `glob_min` bounds every coordinate from below and is attained.
pub proof fn lemma_glob_min_bounds(ps: Seq<Point2>)
    requires
        ps.len() > 0,
    ensures
        forall|i: int| 0 <= i < ps.len() ==> glob_min(ps) <= ps[i].x && glob_min(ps) <= ps[i].y,
        exists|i: int|
            0 <= i < ps.len() && (glob_min(ps) == ps[i].x || glob_min(ps) == ps[i].y),
    decreases ps.len(),
{
    if ps.len() == 1 {
        assert(glob_min(ps) == ps[0].x || glob_min(ps) == ps[0].y);
    } else {
        lemma_glob_min_bounds(ps.drop_last());
        let head = ps.drop_last();
        assert(forall|i: int| 0 <= i < head.len() ==> head[i] == ps[i]);
        if glob_min(head) <= point_min(ps.last()) {
            let w = choose|i: int|
                0 <= i < head.len() && (glob_min(head) == head[i].x || glob_min(head)
                    == head[i].y);
            assert(glob_min(ps) == ps[w].x || glob_min(ps) == ps[w].y);
        } else {
            let l = ps.len() - 1;
            assert(glob_min(ps) == ps[l].x || glob_min(ps) == ps[l].y);
        }
    }
}

/// `glob_max` bounds every coordinate from above and is attained.
pub proof fn lemma_glob_max_bounds(ps: Seq<Point2>)
    requires
        ps.len() > 0,
    ensures
        forall|i: int| 0 <= i < ps.len() ==> ps[i].x <= glob_max(ps) && ps[i].y <= glob_max(ps),
        exists|i: int|
            0 <= i < ps.len() && (glob_max(ps) == ps[i].x || glob_max(ps) == ps[i].y),
    decreases ps.len(),
{
    if ps.len() == 1 {
        assert(glob_max(ps) == ps[0].x || glob_max(ps) == ps[0].y);
    } else {
        lemma_glob_max_bounds(ps.drop_last());
        let head = ps.drop_last();
        assert(forall|i: int| 0 <= i < head.len() ==> head[i] == ps[i]);
        if glob_max(head) >= point_max(ps.last()) {
            let w = choose|i: int|
                0 <= i < head.len() && (glob_max(head) == head[i].x || glob_max(head)
                    == head[i].y);
            assert(glob_max(ps) == ps[w].x || glob_max(ps) == ps[w].y);
        } else {
            let l = ps.len() - 1;
            assert(glob_max(ps) == ps[l].x || glob_max(ps) == ps[l].y);
        }
    }
}

/// Computes the global minimum and maximum coordinate value over both
/// dimensions of every point.
pub fn global_min_max(ps: &Vec<Point2>) -> (r: (i32, i32))
    requires
        ps@.len() > 0,
    ensures
        r.0 == glob_min(ps@),
        r.1 == glob_max(ps@),
{
    let p0 = ps[0];
    let mut mn: i32 = if p0.x <= p0.y {
        p0.x
    } else {
        p0.y
    };
    let mut mx: i32 = if p0.x >= p0.y {
        p0.x
    } else {
        p0.y
    };
    let mut i: usize = 1;
    assert(ps@.take(1) =~= seq![ps@[0]]);
    while i < ps.len()
        invariant
            1 <= i <= ps@.len(),
            mn == glob_min(ps@.take(i as int)),
            mx == glob_max(ps@.take(i as int)),
        decreases ps@.len() - i,
    {
        let p = ps[i];
        proof {
            assert(ps@.take(i + 1).drop_last() =~= ps@.take(i as int));
            assert(ps@.take(i + 1).last() == ps@[i as int]);
        }
        if p.x < mn {
            mn = p.x;
        }
        if p.y < mn {
            mn = p.y;
        }
        if p.x > mx {
            mx = p.x;
        }
        if p.y > mx {
            mx = p.y;
        }
        i += 1;
    }
    assert(ps@.take(ps@.len() as int) =~= ps@);
    (mn, mx)
}

/// What normalization makes of one point, given the global minimum and
/// maximum: the exact fraction `(v - mn) / (mx - mn)` per coordinate, or the
/// constant midpoint `1/2` when the projection is degenerate (`mx == mn`).
pub open spec fn norm_point(p: Point2, mn: int, mx: int) -> UnitPoint
    recommends
        mn <= p.x <= mx,
        mn <= p.y <= mx,
{
    if mn < mx {
        UnitPoint {
            num_x: (p.x - mn) as u64,
            num_y: (p.y - mn) as u64,
            den: (mx - mn) as u64,
        }
    } else {
        UnitPoint { num_x: 1, num_y: 1, den: 2 }
    }
}

/// Rescales every projected point into the unit square. The output has one
/// point per input point, in the same order; each coordinate is the exact
/// fraction `(v - min) / (max - min)` over the global minimum and maximum,
/// and the degenerate case maps every coordinate to the midpoint `1/2`.
pub fn normalize_points(ps: &Vec<Point2>) -> (r: Vec<UnitPoint>)
    ensures
        r@.len() == ps@.len(),
        forall|i: int|
            0 <= i < ps@.len() ==> r@[i] == norm_point(ps@[i], glob_min(ps@), glob_max(ps@)),
{
    let mut r: Vec<UnitPoint> = Vec::new();
    if ps.len() == 0 {
        return r;
    }
    let (mn, mx) = global_min_max(ps);
    proof {
        lemma_glob_min_bounds(ps@);
        lemma_glob_max_bounds(ps@);
    }
    let mut i: usize = 0;
    while i < ps.len()
        invariant
            0 <= i <= ps@.len(),
            ps@.len() > 0,
            mn == glob_min(ps@),
            mx == glob_max(ps@),
            forall|k: int|
                0 <= k < ps@.len() ==> mn <= #[trigger] ps@[k].x <= mx && mn <= ps@[k].y <= mx,
            r@.len() == i,
            forall|k: int| 0 <= k < i ==> r@[k] == norm_point(ps@[k], glob_min(ps@), glob_max(ps@)),
        decreases ps@.len() - i,
    {
        let p = ps[i];
        if mn < mx {
            let num_x: u64 = ((p.x as i64) - (mn as i64)) as u64;
            let num_y: u64 = ((p.y as i64) - (mn as i64)) as u64;
            let den: u64 = ((mx as i64) - (mn as i64)) as u64;
            r.push(UnitPoint { num_x, num_y, den });
        } else {
            r.push(UnitPoint { num_x: 1, num_y: 1, den: 2 });
        }
        i += 1;
    }
    r
}

/// Normalization range: in a non-degenerate projection every output
/// coordinate lies in `[0,1]`; a coordinate attaining the global minimum maps
/// exactly to `0` and one attaining the global maximum maps exactly to `1`,
/// and each bound is attained by some output.
pub proof fn lemma_normalization_range(ps: Seq<Point2>, r: Seq<UnitPoint>)
    requires
        ps.len() > 0,
        glob_min(ps) < glob_max(ps),
        r.len() == ps.len(),
        forall|i: int| 0 <= i < ps.len() ==> r[i] == norm_point(ps[i], glob_min(ps), glob_max(ps)),
    ensures
        forall|i: int|
            0 <= i < r.len() ==> r[i].den > 0 && r[i].num_x <= r[i].den && r[i].num_y <= r[i].den,
        forall|i: int|
            0 <= i < r.len() ==> (ps[i].x == glob_min(ps) ==> r[i].num_x == 0) && (ps[i].y
                == glob_min(ps) ==> r[i].num_y == 0),
        forall|i: int|
            0 <= i < r.len() ==> (ps[i].x == glob_max(ps) ==> r[i].num_x == r[i].den) && (ps[i].y
                == glob_max(ps) ==> r[i].num_y == r[i].den),
        exists|i: int| 0 <= i < r.len() && (r[i].num_x == 0 || r[i].num_y == 0),
        exists|i: int| 0 <= i < r.len() && (r[i].num_x == r[i].den || r[i].num_y == r[i].den),
{
    lemma_glob_min_bounds(ps);
    lemma_glob_max_bounds(ps);
    let w = choose|i: int|
        0 <= i < ps.len() && (glob_min(ps) == ps[i].x || glob_min(ps) == ps[i].y);
    assert(r[w].num_x == 0 || r[w].num_y == 0);
    let v = choose|i: int|
        0 <= i < ps.len() && (glob_max(ps) == ps[i].x || glob_max(ps) == ps[i].y);
    assert(r[v].num_x == r[v].den || r[v].num_y == r[v].den);
}

} // verus!
