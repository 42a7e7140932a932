use vstd::prelude::*;
use crate::tile_bbox::{box_intersection, box_union, box_with_point, empty_box, full_box,
    lemma_box_intersection_associative, lemma_box_intersection_commutative,
    lemma_box_intersection_self, lemma_count_bound, lemma_full_box_covers, TileBBox,
    MAX_ZOOM_LEVEL};
use crate::tile_coords::TileCoord3;
use vstd::arithmetic::power2::pow2;

verus! {

/// One rectangular tile-coordinate range ("bounding box") per zoom level
/// `0..MAX_ZOOM_LEVEL`: the multi-resolution footprint of a tile dataset.
#[derive(Debug, Clone, PartialEq)]
pub struct TileBBoxPyramide {
    pub level_bbox: Vec<TileBBox>,
}

impl View for TileBBoxPyramide {
    type V = Seq<TileBBox>;

    open spec fn view(&self) -> Seq<TileBBox> {
        self.level_bbox@
    }
}

/// The model of a full pyramid: every level's box covers the whole level.
pub open spec fn full_pyramid() -> Seq<TileBBox> {
    Seq::new(MAX_ZOOM_LEVEL as nat, |z: int| full_box(z as u64))
}

/// The model of an empty pyramid: every level's box is empty.
pub open spec fn empty_pyramid() -> Seq<TileBBox> {
    Seq::new(MAX_ZOOM_LEVEL as nat, |z: int| empty_box(z as u64))
}

/// The pyramid with every level below `zoom_level_min` emptied.
pub open spec fn zoom_min_applied(s: Seq<TileBBox>, zoom_level_min: u64) -> Seq<TileBBox> {
    Seq::new(s.len(), |z: int| if z < zoom_level_min { empty_box(s[z].level) } else { s[z] })
}

/// The pyramid with every level above `zoom_level_max` emptied.
pub open spec fn zoom_max_applied(s: Seq<TileBBox>, zoom_level_max: u64) -> Seq<TileBBox> {
    Seq::new(s.len(), |z: int| if z > zoom_level_max { empty_box(s[z].level) } else { s[z] })
}

/// The level-wise intersection of two pyramids.
pub open spec fn pyramid_intersection(a: Seq<TileBBox>, b: Seq<TileBBox>) -> Seq<TileBBox> {
    Seq::new(a.len(), |z: int| box_intersection(a[z], b[z]))
}

/// The highest level with a non-empty box among the first `n` levels,
/// or 0 when all of them are empty.
pub open spec fn max_zoom_of_prefix(s: Seq<TileBBox>, n: int) -> u64
    decreases n,
{
    if n <= 0 {
        0
    } else if !s[n - 1].spec_is_empty() {
        (n - 1) as u64
    } else {
        max_zoom_of_prefix(s, n - 1)
    }
}

/// The highest level with a non-empty box, or 0 for a fully empty pyramid
/// (callers cannot distinguish the two by the result alone).
pub open spec fn max_zoom_of(s: Seq<TileBBox>) -> u64 {
    max_zoom_of_prefix(s, s.len() as int)
}

/// The number of coordinates covered by the first `n` levels together.
pub open spec fn count_prefix(s: Seq<TileBBox>, n: int) -> nat
    decreases n,
{
    if n <= 0 {
        0
    } else {
        count_prefix(s, n - 1) + s[n - 1].spec_count()
    }
}

/// The number of coordinates covered by the whole pyramid.
pub open spec fn pyramid_count(s: Seq<TileBBox>) -> nat {
    count_prefix(s, s.len() as int)
}

/// The non-empty levels of `s` below `n`, each paired with its box,
/// in ascending level order.
pub open spec fn level_list_prefix(s: Seq<TileBBox>, n: int) -> Seq<(u64, TileBBox)>
    decreases n,
{
    if n <= 0 {
        Seq::empty()
    } else if !s[n - 1].spec_is_empty() {
        level_list_prefix(s, n - 1).push((((n - 1) as u64), s[n - 1]))
    } else {
        level_list_prefix(s, n - 1)
    }
}

impl TileBBoxPyramide {
    /// Validity: exactly one box per level, each well formed and carrying its
    /// own level index.
    pub open spec fn wf(self) -> bool {
        &&& self@.len() == MAX_ZOOM_LEVEL
        &&& forall|z: int|
            0 <= z < MAX_ZOOM_LEVEL ==> (#[trigger] self@[z]).wf() && self@[z].level == z
    }

    /// Which coordinates the pyramid covers.
    pub open spec fn spec_contains(self, coord: TileCoord3) -> bool {
        coord.z < MAX_ZOOM_LEVEL && self@[coord.z as int].spec_contains(coord.x, coord.y)
    }

    /// A pyramid whose box at every level spans the entire valid coordinate
    /// range of that level.
    pub fn new_full() -> (r: TileBBoxPyramide)
        ensures
            r.wf(),
            r@ =~= full_pyramid(),
    {
        let mut level_bbox: Vec<TileBBox> = Vec::new();
        let mut z: u64 = 0;
        while z < MAX_ZOOM_LEVEL
            invariant
                z <= MAX_ZOOM_LEVEL,
                level_bbox@.len() == z,
                forall|i: int|
                    0 <= i < z ==> (#[trigger] level_bbox@[i]) == full_box(i as u64)
                        && level_bbox@[i].wf(),
            decreases MAX_ZOOM_LEVEL - z,
        {
            level_bbox.push(TileBBox::new_full(z));
            z = z + 1;
        }
        TileBBoxPyramide { level_bbox }
    }

    /// A pyramid whose box at every level is empty.
    pub fn new_empty() -> (r: TileBBoxPyramide)
        ensures
            r.wf(),
            r@ =~= empty_pyramid(),
    {
        let mut level_bbox: Vec<TileBBox> = Vec::new();
        let mut z: u64 = 0;
        while z < MAX_ZOOM_LEVEL
            invariant
                z <= MAX_ZOOM_LEVEL,
                level_bbox@.len() == z,
                forall|i: int|
                    0 <= i < z ==> (#[trigger] level_bbox@[i]) == empty_box(i as u64)
                        && level_bbox@[i].wf(),
            decreases MAX_ZOOM_LEVEL - z,
        {
            level_bbox.push(TileBBox::new_empty(z));
            z = z + 1;
        }
        TileBBoxPyramide { level_bbox }
    }

    /// Empties every level below `zoom_level_min`; levels at or above it are
    /// untouched. A minimum beyond the depth empties every level.
    pub fn set_zoom_min(&mut self, zoom_level_min: u64)
        requires
            old(self).wf(),
        ensures
            final(self).wf(),
            final(self)@ =~= zoom_min_applied(old(self)@, zoom_level_min),
    {
        let mut z: u64 = 0;
        while z < MAX_ZOOM_LEVEL
            invariant
                z <= MAX_ZOOM_LEVEL,
                old(self).wf(),
                self@.len() == MAX_ZOOM_LEVEL,
                forall|i: int|
                    z <= i < MAX_ZOOM_LEVEL ==> #[trigger] self@[i] == old(self)@[i],
                forall|i: int|
                    0 <= i < z ==> #[trigger] self@[i] == (if i < zoom_level_min {
                        empty_box(old(self)@[i].level)
                    } else {
                        old(self)@[i]
                    }),
            decreases MAX_ZOOM_LEVEL - z,
        {
            if z < zoom_level_min {
                let bbox = &mut self.level_bbox[z as usize];
                bbox.set_empty();
            }
            z = z + 1;
        }
    }

    /// Empties every level above `zoom_level_max`; levels at or below it are
    /// untouched.
    pub fn set_zoom_max(&mut self, zoom_level_max: u64)
        requires
            old(self).wf(),
        ensures
            final(self).wf(),
            final(self)@ =~= zoom_max_applied(old(self)@, zoom_level_max),
    {
        let mut z: u64 = 0;
        while z < MAX_ZOOM_LEVEL
            invariant
                z <= MAX_ZOOM_LEVEL,
                old(self).wf(),
                self@.len() == MAX_ZOOM_LEVEL,
                forall|i: int|
                    z <= i < MAX_ZOOM_LEVEL ==> #[trigger] self@[i] == old(self)@[i],
                forall|i: int|
                    0 <= i < z ==> #[trigger] self@[i] == (if i > zoom_level_max {
                        empty_box(old(self)@[i].level)
                    } else {
                        old(self)@[i]
                    }),
            decreases MAX_ZOOM_LEVEL - z,
        {
            if z > zoom_level_max {
                let bbox = &mut self.level_bbox[z as usize];
                bbox.set_empty();
            }
            z = z + 1;
        }
    }

    /// Replaces every level's box by its intersection with `other`'s box at
    /// the same level.
    pub fn intersect(&mut self, other_bbox_pyramide: &TileBBoxPyramide)
        requires
            old(self).wf(),
            other_bbox_pyramide.wf(),
        ensures
            final(self).wf(),
            final(self)@ =~= pyramid_intersection(old(self)@, other_bbox_pyramide@),
    {
        let mut z: u64 = 0;
        while z < MAX_ZOOM_LEVEL
            invariant
                z <= MAX_ZOOM_LEVEL,
                old(self).wf(),
                other_bbox_pyramide.wf(),
                self@.len() == MAX_ZOOM_LEVEL,
                forall|i: int|
                    z <= i < MAX_ZOOM_LEVEL ==> #[trigger] self@[i] == old(self)@[i],
                forall|i: int|
                    0 <= i < z ==> #[trigger] self@[i] == box_intersection(
                        old(self)@[i],
                        other_bbox_pyramide@[i],
                    ),
            decreases MAX_ZOOM_LEVEL - z,
        {
            let other_bbox = other_bbox_pyramide.get_level_bbox(z);
            let other_copy = *other_bbox;
            let bbox = &mut self.level_bbox[z as usize];
            bbox.intersect(&other_copy);
            z = z + 1;
        }
    }

    /// The box at `level`; the level must be within the pyramid's fixed depth.
    pub fn get_level_bbox(&self, level: u64) -> (r: &TileBBox)
        requires
            level < MAX_ZOOM_LEVEL,
            self@.len() == MAX_ZOOM_LEVEL,
        ensures
            *r == self@[level as int],
    {
        &self.level_bbox[level as usize]
    }

    /// Replaces the box at `level`; the box must belong to that level.
    pub fn set_level_bbox(&mut self, level: u64, bbox: TileBBox)
        requires
            old(self).wf(),
            level < MAX_ZOOM_LEVEL,
            bbox.wf(),
            bbox.level == level,
        ensures
            final(self).wf(),
            final(self)@ =~= old(self)@.update(level as int, bbox),
    {
        self.level_bbox[level as usize] = bbox;
    }

    /// Grows the box at `coord.z` minimally so it contains `(coord.x, coord.y)`;
    /// an empty box becomes the single-point box. Every coordinate contained
    /// before stays contained.
    pub fn include_coord(&mut self, coord: &TileCoord3)
        requires
            old(self).wf(),
            coord.z < MAX_ZOOM_LEVEL,
            coord.x < pow2(coord.z as nat),
            coord.y < pow2(coord.z as nat),
        ensures
            final(self).wf(),
            final(self)@ =~= old(self)@.update(
                coord.z as int,
                box_with_point(old(self)@[coord.z as int], coord.x, coord.y),
            ),
            final(self).spec_contains(*coord),
            forall|c: TileCoord3| old(self).spec_contains(c) ==> final(self).spec_contains(c),
    {
        let bbox = &mut self.level_bbox[coord.z as usize];
        bbox.include_tile(coord.x, coord.y);
    }

    /// Grows the box at `level` minimally so it contains `bbox` (a union with
    /// an empty operand leaves the level unchanged).
    pub fn include_bbox(&mut self, level: u64, bbox: &TileBBox)
        requires
            old(self).wf(),
            level < MAX_ZOOM_LEVEL,
            bbox.wf(),
            bbox.level == level,
        ensures
            final(self).wf(),
            final(self)@ =~= old(self)@.update(
                level as int,
                box_union(old(self)@[level as int], *bbox),
            ),
    {
        let own = &mut self.level_bbox[level as usize];
        own.include_bbox(bbox);
    }

    /// The non-empty levels, each paired with a copy of its box, in ascending
    /// level order.
    pub fn iter_levels(&self) -> (r: Vec<(u64, TileBBox)>)
        requires
            self.wf(),
        ensures
            r@ =~= level_list_prefix(self@, MAX_ZOOM_LEVEL as int),
    {
        let mut result: Vec<(u64, TileBBox)> = Vec::new();
        let mut z: u64 = 0;
        while z < MAX_ZOOM_LEVEL
            invariant
                z <= MAX_ZOOM_LEVEL,
                self.wf(),
                result@ =~= level_list_prefix(self@, z as int),
            decreases MAX_ZOOM_LEVEL - z,
        {
            let bbox = &self.level_bbox[z as usize];
            if !bbox.is_empty() {
                result.push((z, *bbox));
            }
            z = z + 1;
        }
        result
    }

    /// The highest level with a non-empty box; 0 when the pyramid is fully
    /// empty, which callers cannot tell apart from level 0 being the sole
    /// populated level.
    pub fn get_max_zoom(&self) -> (r: u64)
        requires
            self.wf(),
        ensures
            r < MAX_ZOOM_LEVEL,
            r == max_zoom_of(self@),
            forall|z: int| r < z < MAX_ZOOM_LEVEL ==> (#[trigger] self@[z]).spec_is_empty(),
            (exists|z: int| 0 <= z < MAX_ZOOM_LEVEL && !(#[trigger] self@[z]).spec_is_empty())
                ==> !self@[r as int].spec_is_empty(),
    {
        let mut max: u64 = 0;
        let mut z: u64 = 0;
        while z < MAX_ZOOM_LEVEL
            invariant
                z <= MAX_ZOOM_LEVEL,
                self.wf(),
                max == max_zoom_of_prefix(self@, z as int),
                forall|i: int| max < i < z ==> (#[trigger] self@[i]).spec_is_empty(),
                (exists|i: int| 0 <= i < z && !(#[trigger] self@[i]).spec_is_empty())
                    ==> !self@[max as int].spec_is_empty(),
                max < MAX_ZOOM_LEVEL,
            decreases MAX_ZOOM_LEVEL - z,
        {
            let bbox = &self.level_bbox[z as usize];
            if !bbox.is_empty() {
                max = z;
            }
            z = z + 1;
        }
        max
    }

    /// The number of coordinates the pyramid covers, summed over all levels.
    pub fn count_tiles(&self) -> (r: u64)
        requires
            self.wf(),
        ensures
            r == pyramid_count(self@),
    {
        let mut sum: u64 = 0;
        let mut z: u64 = 0;
        while z < MAX_ZOOM_LEVEL
            invariant
                z <= MAX_ZOOM_LEVEL,
                self.wf(),
                sum == count_prefix(self@, z as int),
            decreases MAX_ZOOM_LEVEL - z,
        {
            let bbox = &self.level_bbox[z as usize];
            proof {
                lemma_count_prefix_bound(self@, z as int + 1);
                vstd::arithmetic::power2::lemma2_to64_rest();
                if 2 * (z as nat + 1) < 64 {
                    vstd::arithmetic::power2::lemma_pow2_strictly_increases(
                        2 * (z as nat + 1),
                        64,
                    );
                }
            }
            sum = sum + bbox.count_tiles();
            z = z + 1;
        }
        sum
    }
}

/// The coordinates of box `b` from position `(x, y)` onwards, in the
/// enumeration order of the scheme: columns ascending, and rows ascending
/// within a column.
pub open spec fn box_coords_from(b: TileBBox, x: u64, y: u64) -> Seq<TileCoord3>
    decreases b.x_max - x, b.y_max - y,
{
    if b.empty || x < b.x_min || x > b.x_max || y < b.y_min || y > b.y_max {
        Seq::empty()
    } else if y < b.y_max {
        seq![TileCoord3 { x, y, z: b.level }] + box_coords_from(b, x, (y + 1) as u64)
    } else if x < b.x_max {
        seq![TileCoord3 { x, y, z: b.level }] + box_coords_from(b, (x + 1) as u64, b.y_min)
    } else {
        seq![TileCoord3 { x, y, z: b.level }]
    }
}

/// All coordinates of box `b` in enumeration order.
pub open spec fn box_coords(b: TileBBox) -> Seq<TileCoord3> {
    box_coords_from(b, b.x_min, b.y_min)
}

/// The coordinates of levels `z..` of the pyramid, in ascending level order.
pub open spec fn pyramid_coords_from(s: Seq<TileBBox>, z: int) -> Seq<TileCoord3>
    decreases s.len() - z,
{
    if z < 0 || z >= s.len() {
        Seq::empty()
    } else {
        box_coords(s[z]) + pyramid_coords_from(s, z + 1)
    }
}

/// All coordinates of the pyramid, ordered by ascending level and within a
/// level by the box's enumeration order.
pub open spec fn pyramid_coords(s: Seq<TileBBox>) -> Seq<TileCoord3> {
    pyramid_coords_from(s, 0)
}

/// Levels whose box is empty contribute nothing to the coordinate sequence.
pub proof fn lemma_coords_skip_empty(s: Seq<TileBBox>, a: int, b: int)
    requires
        0 <= a <= b <= s.len(),
        forall|z: int| a <= z < b ==> (#[trigger] s[z]).spec_is_empty(),
    ensures
        pyramid_coords_from(s, a) == pyramid_coords_from(s, b),
    decreases b - a,
{
    if a < b {
        assert(box_coords(s[a]) =~= Seq::<TileCoord3>::empty());
        lemma_coords_skip_empty(s, a + 1, b);
        assert(pyramid_coords_from(s, a) =~= pyramid_coords_from(s, a + 1));
    }
}

/// A lazy, restartable enumeration of every coordinate the pyramid covers:
/// ascending levels, and within a level the box's own enumeration order.
/// Nothing is materialized; the cursor holds only its current position.
pub struct TileIndexIterator<'a> {
    pub pyramide: &'a TileBBoxPyramide,
    pub level: u64,
    pub x: u64,
    pub y: u64,
}

/// Positions the cursor on the first non-empty level at or after `start`,
/// at that box's first coordinate.
fn seek_level(pyramide: &TileBBoxPyramide, start: u64) -> (r: (u64, u64, u64))
    requires
        pyramide.wf(),
        start <= MAX_ZOOM_LEVEL,
    ensures
        start <= r.0 <= MAX_ZOOM_LEVEL,
        r.0 < MAX_ZOOM_LEVEL ==> !pyramide@[r.0 as int].spec_is_empty()
            && r.1 == pyramide@[r.0 as int].x_min && r.2 == pyramide@[r.0 as int].y_min,
        (if r.0 < MAX_ZOOM_LEVEL {
            box_coords_from(pyramide@[r.0 as int], r.1, r.2) + pyramid_coords_from(
                pyramide@,
                r.0 as int + 1,
            )
        } else {
            Seq::<TileCoord3>::empty()
        }) == pyramid_coords_from(pyramide@, start as int),
{
    let mut z: u64 = start;
    while z < MAX_ZOOM_LEVEL
        invariant
            pyramide.wf(),
            start <= z <= MAX_ZOOM_LEVEL,
            forall|i: int| start <= i < z ==> (#[trigger] pyramide@[i]).spec_is_empty(),
        decreases MAX_ZOOM_LEVEL - z,
    {
        let bbox = &pyramide.level_bbox[z as usize];
        if !bbox.is_empty() {
            proof {
                lemma_coords_skip_empty(pyramide@, start as int, z as int);
            }
            return (z, bbox.x_min, bbox.y_min);
        }
        z = z + 1;
    }
    proof {
        lemma_coords_skip_empty(pyramide@, start as int, MAX_ZOOM_LEVEL as int);
    }
    (MAX_ZOOM_LEVEL, 0, 0)
}

impl<'a> TileIndexIterator<'a> {
    /// The cursor stands on a coordinate of a non-empty level, or past the
    /// last level.
    pub open spec fn wf(self) -> bool {
        &&& self.pyramide.wf()
        &&& self.level <= MAX_ZOOM_LEVEL
        &&& self.level < MAX_ZOOM_LEVEL ==> {
            let b = self.pyramide@[self.level as int];
            &&& !b.spec_is_empty()
            &&& b.x_min <= self.x <= b.x_max
            &&& b.y_min <= self.y <= b.y_max
        }
    }

    /// The coordinates the cursor has yet to yield.
    pub open spec fn remaining(self) -> Seq<TileCoord3> {
        if self.level >= MAX_ZOOM_LEVEL {
            Seq::empty()
        } else {
            box_coords_from(self.pyramide@[self.level as int], self.x, self.y)
                + pyramid_coords_from(self.pyramide@, self.level as int + 1)
        }
    }

    /// Yields the next coordinate of the enumeration, or `None` once every
    /// coordinate has been yielded.
    pub fn next(&mut self) -> (r: Option<TileCoord3>)
        requires
            old(self).wf(),
        ensures
            final(self).wf(),
            final(self).pyramide == old(self).pyramide,
            match r {
                None => old(self).remaining().len() == 0 && final(self).remaining().len() == 0,
                Some(c) => old(self).remaining().len() > 0 && c == old(self).remaining()[0]
                    && final(self).remaining() == old(self).remaining().drop_first(),
            },
    {
        if self.level >= MAX_ZOOM_LEVEL {
            return None;
        }
        let bbox = *self.pyramide.get_level_bbox(self.level);
        let coord = TileCoord3 { x: self.x, y: self.y, z: self.level };
        if self.y < bbox.y_max {
            self.y = self.y + 1;
        } else if self.x < bbox.x_max {
            self.x = self.x + 1;
            self.y = bbox.y_min;
        } else {
            let next_pos = seek_level(self.pyramide, self.level + 1);
            self.level = next_pos.0;
            self.x = next_pos.1;
            self.y = next_pos.2;
        }
        proof {
            assert(final(self).remaining() =~= old(self).remaining().drop_first());
        }
        Some(coord)
    }
}

impl TileBBoxPyramide {
    /// A cursor over every coordinate the pyramid covers, by ascending level
    /// and within a level in the box's enumeration order, without
    /// materializing the coordinate set.
    pub fn iter_tile_indexes<'a>(&'a self) -> (it: TileIndexIterator<'a>)
        requires
            self.wf(),
        ensures
            it.wf(),
            it.pyramide == self,
            it.remaining() == pyramid_coords(self@),
    {
        let start = seek_level(self, 0);
        TileIndexIterator { pyramide: self, level: start.0, x: start.1, y: start.2 }
    }
}

proof fn lemma_concat_contains<A>(s: Seq<A>, t: Seq<A>, c: A)
    ensures
        (s + t).contains(c) <==> s.contains(c) || t.contains(c),
{
    if (s + t).contains(c) {
        let i = choose|i: int| 0 <= i < (s + t).len() && (s + t)[i] == c;
        if i < s.len() {
            assert(s[i] == c);
        } else {
            assert(t[i - s.len()] == c);
        }
    }
    if s.contains(c) {
        let i = choose|i: int| 0 <= i < s.len() && s[i] == c;
        assert((s + t)[i] == c);
    }
    if t.contains(c) {
        let i = choose|i: int| 0 <= i < t.len() && t[i] == c;
        assert((s + t)[s.len() + i] == c);
    }
}

proof fn lemma_singleton_contains<A>(a: A, c: A)
    ensures
        seq![a].contains(c) <==> a == c,
{
    if seq![a].contains(c) {
        let i = choose|i: int| 0 <= i < seq![a].len() && seq![a][i] == c;
        assert(i == 0);
    }
    if a == c {
        assert(seq![a][0] == c);
    }
}

/// A box's enumeration from position `(x, y)` onwards yields exactly the
/// covered coordinates at or after that position, each stamped with the
/// box's level.
proof fn lemma_box_coords_from_contains(b: TileBBox, x: u64, y: u64, c: TileCoord3)
    requires
        b.wf(),
        !b.spec_is_empty(),
        b.x_min <= x <= b.x_max,
        b.y_min <= y <= b.y_max,
    ensures
        box_coords_from(b, x, y).contains(c) <==> (c.z == b.level && b.spec_contains(c.x, c.y)
            && (c.x > x || (c.x == x && c.y >= y))),
    decreases b.x_max - x, b.y_max - y,
{
    let first = TileCoord3 { x, y, z: b.level };
    if y < b.y_max {
        lemma_concat_contains(seq![first], box_coords_from(b, x, (y + 1) as u64), c);
        lemma_singleton_contains(first, c);
        lemma_box_coords_from_contains(b, x, (y + 1) as u64, c);
    } else if x < b.x_max {
        lemma_concat_contains(seq![first], box_coords_from(b, (x + 1) as u64, b.y_min), c);
        lemma_singleton_contains(first, c);
        lemma_box_coords_from_contains(b, (x + 1) as u64, b.y_min, c);
    } else {
        lemma_singleton_contains(first, c);
    }
}

proof fn lemma_pyramid_coords_from_contains(s: Seq<TileBBox>, z: int, c: TileCoord3)
    requires
        forall|i: int| 0 <= i < s.len() ==> (#[trigger] s[i]).wf() && s[i].level == i,
        0 <= z,
    ensures
        pyramid_coords_from(s, z).contains(c) <==> (z <= c.z < s.len() && s[
            c.z as int
        ].spec_contains(c.x, c.y)),
    decreases s.len() - z,
{
    if z < s.len() {
        lemma_concat_contains(box_coords(s[z]), pyramid_coords_from(s, z + 1), c);
        lemma_pyramid_coords_from_contains(s, z + 1, c);
        if !s[z].spec_is_empty() {
            lemma_box_coords_from_contains(s[z], s[z].x_min, s[z].y_min, c);
        }
    }
}

/// The pyramid's enumeration yields precisely the coordinates the pyramid
/// covers, each exactly where its level's box covers it.
pub proof fn lemma_pyramid_coords_contains(s: Seq<TileBBox>, c: TileCoord3)
    requires
        s.len() == MAX_ZOOM_LEVEL,
        forall|i: int| 0 <= i < s.len() ==> (#[trigger] s[i]).wf() && s[i].level == i,
    ensures
        pyramid_coords(s).contains(c) <==> (c.z < MAX_ZOOM_LEVEL && s[c.z as int].spec_contains(
            c.x,
            c.y,
        )),
{
    lemma_pyramid_coords_from_contains(s, 0, c);
}

proof fn lemma_box_coords_from_len(b: TileBBox, x: u64, y: u64)
    requires
        b.wf(),
        !b.spec_is_empty(),
        b.x_min <= x <= b.x_max,
        b.y_min <= y <= b.y_max,
    ensures
        box_coords_from(b, x, y).len() == (b.x_max - x) * (b.y_max - b.y_min + 1) + (b.y_max - y
            + 1),
    decreases b.x_max - x, b.y_max - y,
{
    let h = b.y_max - b.y_min + 1;
    if y < b.y_max {
        lemma_box_coords_from_len(b, x, (y + 1) as u64);
    } else if x < b.x_max {
        lemma_box_coords_from_len(b, (x + 1) as u64, b.y_min);
        assert((b.x_max - x) * h == (b.x_max - x - 1) * h + h) by (nonlinear_arith);
    } else {
        assert((b.x_max - x) * h == 0) by (nonlinear_arith)
            requires
                b.x_max == x,
        ;
    }
}

/// A box's enumeration yields exactly as many coordinates as the box covers.
pub proof fn lemma_box_coords_len(b: TileBBox)
    requires
        b.wf(),
    ensures
        box_coords(b).len() == b.spec_count(),
{
    if !b.spec_is_empty() {
        lemma_box_coords_from_len(b, b.x_min, b.y_min);
        let h = b.y_max - b.y_min + 1;
        assert((b.x_max - b.x_min + 1) * h == (b.x_max - b.x_min) * h + h) by (nonlinear_arith);
    }
}

proof fn lemma_pyramid_coords_from_len(s: Seq<TileBBox>, z: int)
    requires
        forall|i: int| 0 <= i < s.len() ==> (#[trigger] s[i]).wf() && s[i].level == i,
        0 <= z <= s.len(),
    ensures
        pyramid_coords_from(s, z).len() + count_prefix(s, z) == pyramid_count(s),
    decreases s.len() - z,
{
    if z < s.len() {
        lemma_box_coords_len(s[z]);
        lemma_pyramid_coords_from_len(s, z + 1);
    }
}

/// The pyramid's enumeration yields exactly as many coordinates as
/// `count_tiles` reports; with `lemma_pyramid_coords_contains` this says the
/// enumeration covers each coordinate exactly once.
pub proof fn lemma_pyramid_coords_len(s: Seq<TileBBox>)
    requires
        forall|i: int| 0 <= i < s.len() ==> (#[trigger] s[i]).wf() && s[i].level == i,
    ensures
        pyramid_coords(s).len() == pyramid_count(s),
{
    lemma_pyramid_coords_from_len(s, 0);
}

/// Intersecting a pyramid with itself leaves it unchanged, box for box.
pub proof fn lemma_pyramid_intersection_self(s: Seq<TileBBox>)
    requires
        forall|z: int| 0 <= z < s.len() ==> (#[trigger] s[z]).wf(),
    ensures
        pyramid_intersection(s, s) =~= s,
{
    assert forall|z: int| 0 <= z < s.len() implies pyramid_intersection(s, s)[z] == s[z] by {
        lemma_box_intersection_self(s[z]);
    }
}

/// Pyramid intersection is commutative, level by level.
pub proof fn lemma_pyramid_intersection_commutative(a: Seq<TileBBox>, b: Seq<TileBBox>)
    requires
        a.len() == b.len(),
        forall|z: int| 0 <= z < a.len() ==> (#[trigger] a[z]).wf() && a[z].level == z,
        forall|z: int| 0 <= z < b.len() ==> (#[trigger] b[z]).wf() && b[z].level == z,
    ensures
        pyramid_intersection(a, b) =~= pyramid_intersection(b, a),
{
    assert forall|z: int|
        0 <= z < a.len() implies pyramid_intersection(a, b)[z] == pyramid_intersection(
        b,
        a,
    )[z] by {
        lemma_box_intersection_commutative(a[z], b[z]);
    }
}

/// Pyramid intersection is associative, level by level.
pub proof fn lemma_pyramid_intersection_associative(
    a: Seq<TileBBox>,
    b: Seq<TileBBox>,
    c: Seq<TileBBox>,
)
    requires
        a.len() == b.len(),
        b.len() == c.len(),
        forall|z: int| 0 <= z < a.len() ==> (#[trigger] a[z]).wf() && a[z].level == z,
        forall|z: int| 0 <= z < b.len() ==> (#[trigger] b[z]).wf() && b[z].level == z,
        forall|z: int| 0 <= z < c.len() ==> (#[trigger] c[z]).wf() && c[z].level == z,
    ensures
        pyramid_intersection(pyramid_intersection(a, b), c) =~= pyramid_intersection(
            a,
            pyramid_intersection(b, c),
        ),
{
    assert forall|z: int|
        0 <= z < a.len() implies pyramid_intersection(pyramid_intersection(a, b), c)[z]
        == pyramid_intersection(a, pyramid_intersection(b, c))[z] by {
        lemma_box_intersection_associative(a[z], b[z], c[z]);
    }
}

/// Every level of a full pyramid is non-empty and covers exactly the valid
/// coordinates of that level; every level of an empty pyramid is empty.
pub proof fn lemma_full_pyramid_covers(z: u64, x: u64, y: u64)
    requires
        z < MAX_ZOOM_LEVEL,
    ensures
        !full_pyramid()[z as int].spec_is_empty(),
        full_pyramid()[z as int].spec_contains(x, y) <==> x < pow2(z as nat) && y < pow2(
            z as nat,
        ),
        empty_pyramid()[z as int].spec_is_empty(),
{
    lemma_full_box_covers(z, x, y);
}

/// Among the first `n` levels, with all levels above `max_level` empty and
/// `max_level` itself populated, the highest populated level is `max_level`.
proof fn lemma_max_zoom_of_prefix_window(s: Seq<TileBBox>, max_level: u64, n: int)
    requires
        max_level < n <= s.len(),
        !s[max_level as int].spec_is_empty(),
        forall|z: int| max_level < z < n ==> (#[trigger] s[z]).spec_is_empty(),
    ensures
        max_zoom_of_prefix(s, n) == max_level,
    decreases n,
{
    if n - 1 > max_level {
        lemma_max_zoom_of_prefix_window(s, max_level, n - 1);
    }
}

/// Narrowing a full pyramid to a zoom window `[min_level, max_level]` leaves
/// exactly the levels of the window populated, and the highest populated
/// level is then `max_level`.
pub proof fn lemma_zoom_clamp_window(min_level: u64, max_level: u64)
    requires
        min_level <= max_level,
        max_level < MAX_ZOOM_LEVEL,
    ensures
        forall|z: int|
            0 <= z < MAX_ZOOM_LEVEL ==> (!(#[trigger] zoom_max_applied(
                zoom_min_applied(full_pyramid(), min_level),
                max_level,
            )[z]).spec_is_empty() <==> min_level <= z <= max_level),
        max_zoom_of(zoom_max_applied(zoom_min_applied(full_pyramid(), min_level), max_level))
            == max_level,
{
    let clamped = zoom_max_applied(zoom_min_applied(full_pyramid(), min_level), max_level);
    assert forall|z: int|
        0 <= z < MAX_ZOOM_LEVEL implies (!(#[trigger] clamped[z]).spec_is_empty() <==> min_level
        <= z <= max_level) by {}
    lemma_max_zoom_of_prefix_window(clamped, max_level, MAX_ZOOM_LEVEL as int);
}

/// An inverted zoom window (minimum above maximum) empties every level of any
/// pyramid; it is not an error.
pub proof fn lemma_zoom_clamp_inverted(s: Seq<TileBBox>, min_level: u64, max_level: u64)
    requires
        max_level < min_level,
    ensures
        forall|z: int|
            0 <= z < s.len() ==> (#[trigger] zoom_max_applied(
                zoom_min_applied(s, min_level),
                max_level,
            )[z]).spec_is_empty(),
{
}

/// The first `n` levels of a well-formed pyramid together cover fewer than
/// `4^n / 3` coordinates, so the total count fits in a `u64`.
pub proof fn lemma_count_prefix_bound(s: Seq<TileBBox>, n: int)
    requires
        0 <= n <= s.len(),
        forall|z: int| 0 <= z < s.len() ==> (#[trigger] s[z]).wf() && s[z].level == z,
    ensures
        3 * count_prefix(s, n) <= pow2(2 * n as nat) - 1,
    decreases n,
{
    vstd::arithmetic::power2::lemma2_to64();
    if n > 0 {
        lemma_count_prefix_bound(s, n - 1);
        lemma_count_bound(s[n - 1]);
        assert(pow2(2 * n as nat) == 4 * pow2(2 * (n - 1) as nat)) by {
            vstd::arithmetic::power2::lemma_pow2_adds(2, 2 * (n - 1) as nat);
            vstd::arithmetic::power2::lemma2_to64();
        }
        assert(s[n - 1].spec_count() <= pow2(2 * (n - 1) as nat));
    }
}

} // verus!
