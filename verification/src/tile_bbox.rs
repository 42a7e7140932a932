use vstd::prelude::*;
use vstd::arithmetic::power2::{pow2, lemma2_to64, lemma_pow2_strictly_increases};
use vstd::arithmetic::mul::lemma_mul_upper_bound;

verus! {

/// Number of zoom levels of the quad-tree tiling scheme: levels `0..32`.
pub const MAX_ZOOM_LEVEL: u64 = 32;

/// A rectangular range of tile columns/rows at one zoom level, or the
/// distinguished empty state at that level.
///
/// Well-formed values (`wf`) are canonical: an empty box always carries
/// all-zero bounds, so structural equality coincides with equality of the
/// covered coordinate sets of two boxes at the same level.
#[derive(Debug, Clone, Copy, PartialEq, Eq, Structural)]
pub struct TileBBox {
    pub level: u64,
    pub empty: bool,
    pub x_min: u64,
    pub x_max: u64,
    pub y_min: u64,
    pub y_max: u64,
}

/// The canonical empty box at `level`.
pub open spec fn empty_box(level: u64) -> TileBBox {
    TileBBox { level, empty: true, x_min: 0, x_max: 0, y_min: 0, y_max: 0 }
}

/// The box covering every valid coordinate of `level`: `0 <= x, y < 2^level`.
pub open spec fn full_box(level: u64) -> TileBBox {
    TileBBox {
        level,
        empty: false,
        x_min: 0,
        x_max: (pow2(level as nat) - 1) as u64,
        y_min: 0,
        y_max: (pow2(level as nat) - 1) as u64,
    }
}

/// Coordinate-wise overlap of two boxes at `a`'s level; the canonical empty
/// box when either operand is empty or the overlap is degenerate.
pub open spec fn box_intersection(a: TileBBox, b: TileBBox) -> TileBBox {
    if a.empty || b.empty {
        empty_box(a.level)
    } else {
        let x_min = if a.x_min >= b.x_min { a.x_min } else { b.x_min };
        let x_max = if a.x_max <= b.x_max { a.x_max } else { b.x_max };
        let y_min = if a.y_min >= b.y_min { a.y_min } else { b.y_min };
        let y_max = if a.y_max <= b.y_max { a.y_max } else { b.y_max };
        if x_min <= x_max && y_min <= y_max {
            TileBBox { level: a.level, empty: false, x_min, x_max, y_min, y_max }
        } else {
            empty_box(a.level)
        }
    }
}

/// The minimal box at `a`'s level containing `a` and the point `(x, y)`.
pub open spec fn box_with_point(a: TileBBox, x: u64, y: u64) -> TileBBox {
    if a.empty {
        TileBBox { level: a.level, empty: false, x_min: x, x_max: x, y_min: y, y_max: y }
    } else {
        TileBBox {
            level: a.level,
            empty: false,
            x_min: if a.x_min <= x { a.x_min } else { x },
            x_max: if a.x_max >= x { a.x_max } else { x },
            y_min: if a.y_min <= y { a.y_min } else { y },
            y_max: if a.y_max >= y { a.y_max } else { y },
        }
    }
}

/// The minimal box at `a`'s level containing both `a` and `b`
/// (union of rectangles via min/max of bounds; an empty operand is neutral).
pub open spec fn box_union(a: TileBBox, b: TileBBox) -> TileBBox {
    if b.empty {
        a
    } else if a.empty {
        TileBBox { level: a.level, ..b }
    } else {
        TileBBox {
            level: a.level,
            empty: false,
            x_min: if a.x_min <= b.x_min { a.x_min } else { b.x_min },
            x_max: if a.x_max >= b.x_max { a.x_max } else { b.x_max },
            y_min: if a.y_min <= b.y_min { a.y_min } else { b.y_min },
            y_max: if a.y_max >= b.y_max { a.y_max } else { b.y_max },
        }
    }
}

impl TileBBox {
    /// Validity: the level is a real zoom level, a non-empty box has ordered
    /// bounds that are valid tile indices for its level, and an empty box is
    /// canonical (all-zero bounds).
    pub open spec fn wf(self) -> bool {
        &&& self.level < MAX_ZOOM_LEVEL
        &&& if self.empty {
            self.x_min == 0 && self.x_max == 0 && self.y_min == 0 && self.y_max == 0
        } else {
            &&& self.x_min <= self.x_max
            &&& self.y_min <= self.y_max
            &&& self.x_max < pow2(self.level as nat)
            &&& self.y_max < pow2(self.level as nat)
        }
    }

    pub open spec fn spec_is_empty(self) -> bool {
        self.empty
    }

    /// Which coordinates the box covers.
    pub open spec fn spec_contains(self, x: u64, y: u64) -> bool {
        &&& !self.empty
        &&& self.x_min <= x <= self.x_max
        &&& self.y_min <= y <= self.y_max
    }

    /// How many coordinates the box covers.
    pub open spec fn spec_count(self) -> nat {
        if self.empty {
            0
        } else {
            ((self.x_max - self.x_min + 1) * (self.y_max - self.y_min + 1)) as nat
        }
    }

    /// Constructs the non-empty box `[x_min, x_max] x [y_min, y_max]` at `level`.
    pub fn new(level: u64, x_min: u64, y_min: u64, x_max: u64, y_max: u64) -> (r: TileBBox)
        requires
            level < MAX_ZOOM_LEVEL,
            x_min <= x_max < pow2(level as nat),
            y_min <= y_max < pow2(level as nat),
        ensures
            r == (TileBBox { level, empty: false, x_min, x_max, y_min, y_max }),
            r.wf(),
    {
        TileBBox { level, empty: false, x_min, x_max, y_min, y_max }
    }

    /// Constructs the box covering the entire valid coordinate range of `level`.
    pub fn new_full(level: u64) -> (r: TileBBox)
        requires
            level < MAX_ZOOM_LEVEL,
        ensures
            r == full_box(level),
            r.wf(),
    {
        let max_index = max_tile_index(level);
        TileBBox { level, empty: false, x_min: 0, x_max: max_index, y_min: 0, y_max: max_index }
    }

    /// Constructs the empty box at `level`.
    pub fn new_empty(level: u64) -> (r: TileBBox)
        requires
            level < MAX_ZOOM_LEVEL,
        ensures
            r == empty_box(level),
            r.wf(),
    {
        TileBBox { level, empty: true, x_min: 0, x_max: 0, y_min: 0, y_max: 0 }
    }

    /// Empties the box in place, keeping its level.
    pub fn set_empty(&mut self)
        ensures
            *final(self) == empty_box(old(self).level),
    {
        self.empty = true;
        self.x_min = 0;
        self.x_max = 0;
        self.y_min = 0;
        self.y_max = 0;
    }

    pub fn is_empty(&self) -> (r: bool)
        ensures
            r == self.spec_is_empty(),
    {
        self.empty
    }

    pub fn contains(&self, x: u64, y: u64) -> (r: bool)
        ensures
            r == self.spec_contains(x, y),
    {
        !self.empty && self.x_min <= x && x <= self.x_max && self.y_min <= y && y <= self.y_max
    }

    /// Replaces the box by its overlap with `other` (empty when degenerate).
    pub fn intersect(&mut self, other: &TileBBox)
        requires
            old(self).wf(),
            other.wf(),
            other.level == old(self).level,
        ensures
            *final(self) == box_intersection(*old(self), *other),
            final(self).wf(),
    {
        if self.empty || other.empty {
            self.set_empty();
        } else {
            let x_min = if self.x_min >= other.x_min { self.x_min } else { other.x_min };
            let x_max = if self.x_max <= other.x_max { self.x_max } else { other.x_max };
            let y_min = if self.y_min >= other.y_min { self.y_min } else { other.y_min };
            let y_max = if self.y_max <= other.y_max { self.y_max } else { other.y_max };
            if x_min <= x_max && y_min <= y_max {
                self.x_min = x_min;
                self.x_max = x_max;
                self.y_min = y_min;
                self.y_max = y_max;
            } else {
                self.set_empty();
            }
        }
    }

    /// Grows the box minimally so it contains the point `(x, y)`.
    pub fn include_tile(&mut self, x: u64, y: u64)
        requires
            old(self).wf(),
            x < pow2(old(self).level as nat),
            y < pow2(old(self).level as nat),
        ensures
            *final(self) == box_with_point(*old(self), x, y),
            final(self).wf(),
            final(self).spec_contains(x, y),
            forall|px: u64, py: u64|
                old(self).spec_contains(px, py) ==> final(self).spec_contains(px, py),
    {
        if self.empty {
            self.empty = false;
            self.x_min = x;
            self.x_max = x;
            self.y_min = y;
            self.y_max = y;
        } else {
            if x < self.x_min {
                self.x_min = x;
            }
            if x > self.x_max {
                self.x_max = x;
            }
            if y < self.y_min {
                self.y_min = y;
            }
            if y > self.y_max {
                self.y_max = y;
            }
        }
    }

    /// Grows the box minimally so it contains `other` (a union with an empty
    /// operand leaves the box unchanged).
    pub fn include_bbox(&mut self, other: &TileBBox)
        requires
            old(self).wf(),
            other.wf(),
            other.level == old(self).level,
        ensures
            *final(self) == box_union(*old(self), *other),
            final(self).wf(),
            forall|px: u64, py: u64|
                old(self).spec_contains(px, py) || other.spec_contains(px, py)
                    ==> final(self).spec_contains(px, py),
    {
        if other.empty {
            // unchanged
        } else if self.empty {
            self.empty = false;
            self.x_min = other.x_min;
            self.x_max = other.x_max;
            self.y_min = other.y_min;
            self.y_max = other.y_max;
        } else {
            if other.x_min < self.x_min {
                self.x_min = other.x_min;
            }
            if other.x_max > self.x_max {
                self.x_max = other.x_max;
            }
            if other.y_min < self.y_min {
                self.y_min = other.y_min;
            }
            if other.y_max > self.y_max {
                self.y_max = other.y_max;
            }
        }
    }

    /// How many coordinates the box covers (0 for an empty box).
    pub fn count_tiles(&self) -> (r: u64)
        requires
            self.wf(),
        ensures
            r == self.spec_count(),
            r <= pow2(2 * self.level as nat),
    {
        proof {
            lemma_count_bound(*self);
        }
        if self.empty {
            0
        } else {
            (self.x_max - self.x_min + 1) * (self.y_max - self.y_min + 1)
        }
    }
}

/// The largest valid tile index of `level`: `2^level - 1`.
pub fn max_tile_index(level: u64) -> (r: u64)
    requires
        level < MAX_ZOOM_LEVEL,
    ensures
        r == pow2(level as nat) - 1,
{
    proof {
        lemma2_to64();
    }
    let mut result: u64 = 1;
    let mut i: u64 = 0;
    while i < level
        invariant
            i <= level < MAX_ZOOM_LEVEL,
            result == pow2(i as nat),
        decreases level - i,
    {
        proof {
            lemma2_to64();
            lemma_pow2_strictly_increases(i as nat + 1, 32);
            assert(pow2((i + 1) as nat) == 2 * pow2(i as nat)) by {
                vstd::arithmetic::power2::lemma_pow2_unfold((i + 1) as nat);
            }
        }
        result = result * 2;
        i = i + 1;
    }
    result - 1
}

/// A well-formed box covers at most `2^level * 2^level` coordinates, so its
/// count fits comfortably in a `u64`.
pub proof fn lemma_count_bound(b: TileBBox)
    requires
        b.wf(),
    ensures
        b.spec_count() <= pow2(2 * b.level as nat),
        b.spec_count() <= 0x4000_0000_0000_0000,
        !b.empty ==> b.x_max - b.x_min + 1 <= 0x8000_0000,
        !b.empty ==> b.y_max - b.y_min + 1 <= 0x8000_0000,
        !b.empty ==> (b.x_max - b.x_min + 1) * (b.y_max - b.y_min + 1) <= 0x4000_0000_0000_0000,
{
    lemma2_to64();
    vstd::arithmetic::power2::lemma2_to64_rest();
    if b.empty {
    } else {
        let w = b.x_max - b.x_min + 1;
        let h = b.y_max - b.y_min + 1;
        let p = pow2(b.level as nat) as int;
        if b.level < 31 {
            lemma_pow2_strictly_increases(b.level as nat, 31);
        }
        assert(w <= p && h <= p);
        lemma_mul_upper_bound(w, p, h, p);
        assert(p * p == pow2(2 * b.level as nat)) by {
            vstd::arithmetic::power2::lemma_pow2_adds(b.level as nat, b.level as nat);
        }
        if b.level < 31 {
            lemma_pow2_strictly_increases(2 * b.level as nat, 62);
        }
        assert(pow2(62) == 0x4000_0000_0000_0000);
    }
}

/// Intersecting a box with itself leaves it unchanged.
pub proof fn lemma_box_intersection_self(a: TileBBox)
    requires
        a.wf(),
    ensures
        box_intersection(a, a) == a,
{
}

/// Intersection of boxes at one level is commutative.
pub proof fn lemma_box_intersection_commutative(a: TileBBox, b: TileBBox)
    requires
        a.wf(),
        b.wf(),
        a.level == b.level,
    ensures
        box_intersection(a, b) == box_intersection(b, a),
{
}

/// Intersection of boxes at one level is associative.
pub proof fn lemma_box_intersection_associative(a: TileBBox, b: TileBBox, c: TileBBox)
    requires
        a.wf(),
        b.wf(),
        c.wf(),
        a.level == b.level,
        b.level == c.level,
    ensures
        box_intersection(box_intersection(a, b), c) == box_intersection(a, box_intersection(b, c)),
{
}

/// The intersection covers exactly the coordinates covered by both operands.
pub proof fn lemma_box_intersection_contains(a: TileBBox, b: TileBBox, x: u64, y: u64)
    requires
        a.wf(),
        b.wf(),
        a.level == b.level,
    ensures
        box_intersection(a, b).spec_contains(x, y) <==> a.spec_contains(x, y) && b.spec_contains(
            x,
            y,
        ),
{
}

/// The full box of a level is non-empty and covers exactly the valid
/// coordinates of that level, `0 <= x, y < 2^level`; the empty box of a level
/// covers nothing.
pub proof fn lemma_full_box_covers(level: u64, x: u64, y: u64)
    requires
        level < MAX_ZOOM_LEVEL,
    ensures
        !full_box(level).spec_is_empty(),
        full_box(level).spec_contains(x, y) <==> x < pow2(level as nat) && y < pow2(level as nat),
        !empty_box(level).spec_contains(x, y),
{
    vstd::arithmetic::power2::lemma_pow2_pos(level as nat);
    lemma2_to64();
    lemma_pow2_strictly_increases(level as nat, 64);
}

} // verus!
