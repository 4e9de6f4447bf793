//! A uniform-grid spatial index over the organisms of one tick: each
//! organism is filed, as a `ForeignerInfo` record, under the cell that holds
//! its position, and a radius query returns every record of the cells that
//! the query's square overlaps.

use std::collections::HashMap;

use crate::geometry::{dist_sq, Point, MAX_REACH};
use crate::organism::Organism;
use crate::simulation::ids_unique;
use crate::species::Nutrition;
use vstd::prelude::*;

verus! {

broadcast use vstd::std_specs::hash::group_hash_axioms;

/// Largest absolute coordinate of a query rectangle's corners.
pub const QUERY_LIMIT: i64 = 3_000_000_000_000;

/// Largest absolute cell coordinate.
pub const CELL_LIMIT: i64 = 4_000_000_000_000;

/// Shift that makes a cell coordinate non-negative in a cell key.
pub const KEY_OFFSET: i128 = 0x8000_0000_0000_0000;

/// Factor that separates the two cell coordinates in a cell key.
pub const KEY_BASE: u128 = 0x1_0000_0000_0000_0000;

/// What one organism shows of itself to the others during a tick.
#[derive(Clone, Debug)]
pub struct ForeignerInfo {
    pub organism_id: u64,
    pub position: Point,
    pub species_name: String,
    pub looks_for: Nutrition,
    pub contains_nutrition: Nutrition,
}

/// The record an organism is filed under: as food it shows nothing while
/// it is within its species' birth immunity.
pub open spec fn foreigner_info_spec(o: Organism) -> ForeignerInfo {
    ForeignerInfo {
        organism_id: o.id,
        position: o.shared_state.position,
        species_name: o.shared_state.species.name,
        looks_for: o.shared_state.species.eats,
        contains_nutrition: if o.shared_state.species.birth_immunity >= o.shared_state.age {
            Nutrition::Nothing
        } else {
            o.shared_state.species.contained_nutrition
        },
    }
}

impl ForeignerInfo {
    pub fn new(organism: &Organism) -> (r: ForeignerInfo)
        ensures
            r == foreigner_info_spec(*organism),
    {
        let state = organism.shared_state();
        let nutrition = if state.species.birth_immunity >= state.age() {
            Nutrition::Nothing
        } else {
            state.species.contained_nutrition
        };
        ForeignerInfo {
            organism_id: organism.id(),
            position: organism.position(),
            species_name: state.species.name.clone(),
            looks_for: state.species.eats,
            contains_nutrition: nutrition,
        }
    }

    /// An exact copy of the record.
    pub fn duplicate(&self) -> (r: ForeignerInfo)
        ensures
            r == *self,
    {
        ForeignerInfo {
            organism_id: self.organism_id,
            position: self.position,
            species_name: self.species_name.clone(),
            looks_for: self.looks_for,
            contains_nutrition: self.contains_nutrition,
        }
    }
}

/// An axis-aligned rectangle: corner `(x, y)`, width `w`, height `h`.
#[derive(Clone, Copy, Debug, PartialEq, Eq, Structural)]
pub struct Rect {
    pub x: i64,
    pub y: i64,
    pub w: i64,
    pub h: i64,
}

impl Rect {
    /// Non-negative extent, corners within the query limits.
    pub open spec fn bounded(self) -> bool {
        &&& 0 <= self.w && 0 <= self.h
        &&& -QUERY_LIMIT <= self.x && self.x + self.w <= QUERY_LIMIT
        &&& -QUERY_LIMIT <= self.y && self.y + self.h <= QUERY_LIMIT
    }
}

/// The square of half-side `radius` centred on `center`.
pub open spec fn square_around(center: Point, radius: int) -> Rect {
    Rect {
        x: (center.x - radius) as i64,
        y: (center.y - radius) as i64,
        w: (2 * radius) as i64,
        h: (2 * radius) as i64,
    }
}

/// Coordinates of a grid cell.
#[derive(Clone, Copy, Debug, PartialEq, Eq, Structural)]
pub struct ChunkIndex {
    pub x: i64,
    pub y: i64,
}

/// The cell, along one axis, of coordinate `v`: cells of side `size` are
/// centred on the multiples of `size`.
pub open spec fn cell_of(v: int, size: int) -> int {
    (v + size / 2) / size
}

/// The key a cell is stored under.
pub open spec fn cell_key(cx: int, cy: int) -> int {
    (cx + KEY_OFFSET) * KEY_BASE + (cy + KEY_OFFSET)
}

/// Different cells have different keys.
pub proof fn lemma_cell_key_injective(a: int, b: int, c: int, d: int)
    requires
        i64::MIN <= a <= i64::MAX,
        i64::MIN <= b <= i64::MAX,
        i64::MIN <= c <= i64::MAX,
        i64::MIN <= d <= i64::MAX,
        cell_key(a, b) == cell_key(c, d),
    ensures
        a == c,
        b == d,
{
    assert((a - c) * KEY_BASE == d - b);
    if a > c {
        assert((a - c) * KEY_BASE >= KEY_BASE) by (nonlinear_arith)
            requires
                a - c >= 1,
        ;
    } else if a < c {
        assert((a - c) * KEY_BASE <= -KEY_BASE) by (nonlinear_arith)
            requires
                a - c <= -1,
        ;
    }
}

/// Cells of coordinates within the query limits stay within the cell limits.
pub proof fn lemma_cell_bounds(v: int, size: int)
    requires
        -QUERY_LIMIT <= v <= QUERY_LIMIT,
        0 < size <= MAX_REACH,
    ensures
        -CELL_LIMIT <= cell_of(v, size) <= CELL_LIMIT,
{
    let c = v + size / 2;
    vstd::arithmetic::div_mod::lemma_fundamental_div_mod(c, size);
    vstd::arithmetic::div_mod::lemma_mod_bound(c, size);
    let m = c % size;
    assert(-CELL_LIMIT <= c / size <= CELL_LIMIT) by (nonlinear_arith)
        requires
            c == size * (c / size) + m,
            0 <= m < size,
            size >= 1,
            -QUERY_LIMIT <= c <= QUERY_LIMIT + MAX_REACH,
    ;
}

/// A record is still found after another is appended.
proof fn lemma_push_keeps(s: Seq<ForeignerInfo>, x: ForeignerInfo, e: ForeignerInfo)
    requires
        s.contains(e),
    ensures
        s.push(x).contains(e),
{
    let i = choose|i: int| 0 <= i < s.len() && s[i] == e;
    assert(s.push(x)[i] == e);
}

/// Record `e` lies in a cell before cell `(x, y)`, row by row.
pub open spec fn cell_before(e: ForeignerInfo, s: int, x: int, y: int) -> bool {
    let cx = cell_of(e.position.x as int, s);
    let cy = cell_of(e.position.y as int, s);
    cy < y || (cy == y && cx < x)
}

/// Record `e` lies in cell `(x, y)`.
pub open spec fn cell_is(e: ForeignerInfo, s: int, x: int, y: int) -> bool {
    cell_of(e.position.x as int, s) == x && cell_of(e.position.y as int, s) == y
}

/// A spatial index of the organisms of one tick, by grid cell.
#[derive(Clone, Debug)]
pub struct EnvironmentAwareness {
    pub chunk_size: u64,
    pub chunks: HashMap<u128, Vec<ForeignerInfo>>,
}

impl EnvironmentAwareness {
    /// The cell key of a point.
    pub open spec fn key_of(&self, p: Point) -> int {
        cell_key(cell_of(p.x as int, self.chunk_size as int), cell_of(p.y as int, self.chunk_size as int))
    }

    /// Positive cell size within reach; every record lies in the world and
    /// is filed under the key of its position's cell.
    pub open spec fn wf(&self) -> bool {
        &&& 0 < self.chunk_size <= MAX_REACH
        &&& forall|k: u128, i: int|
            #![trigger self.chunks@[k]@[i]]
            self.chunks@.contains_key(k) && 0 <= i < self.chunks@[k]@.len() ==> {
                &&& self.chunks@[k]@[i].position.in_world()
                &&& self.key_of(self.chunks@[k]@[i].position) == k
            }
    }

    /// No cell holds a record twice. As a record's cell is that of its
    /// position, no record is held twice anywhere.
    pub open spec fn records_distinct(&self) -> bool {
        forall|k: u128| self.chunks@.contains_key(k) ==> (#[trigger] self.chunks@[k])@.no_duplicates()
    }

    /// The index holds record `e`.
    pub open spec fn has(&self, e: ForeignerInfo) -> bool {
        let k = self.key_of(e.position) as u128;
        self.chunks@.contains_key(k) && self.chunks@[k]@.contains(e)
    }

    /// Record `e` lies in a cell that the rectangle overlaps.
    pub open spec fn in_rect_cells(&self, rect: Rect, e: ForeignerInfo) -> bool {
        let s = self.chunk_size as int;
        let cx = cell_of(e.position.x as int, s);
        let cy = cell_of(e.position.y as int, s);
        &&& cell_of(rect.x as int, s) <= cx <= cell_of(rect.x + rect.w, s)
        &&& cell_of(rect.y as int, s) <= cy <= cell_of(rect.y + rect.h, s)
    }

    /// The index holds exactly the records of the first `n` organisms.
    pub open spec fn holds_first(&self, organisms: Seq<Organism>, n: int) -> bool {
        &&& forall|j: int| 0 <= j < n ==> self.has(#[trigger] foreigner_info_spec(organisms[j]))
        &&& forall|k: u128, i: int|
            self.chunks@.contains_key(k) && 0 <= i < self.chunks@[k]@.len() ==> exists|j: int|
                0 <= j < n && #[trigger] self.chunks@[k]@[i] == foreigner_info_spec(organisms[j])
    }

    /// The index holds exactly the records of `organisms`.
    pub open spec fn holds_exactly(&self, organisms: Seq<Organism>) -> bool {
        self.holds_first(organisms, organisms.len() as int)
    }

    /// An empty index with cells of side `chunk_size`.
    pub fn new(chunk_size: u64) -> (r: Self)
        requires
            0 < chunk_size <= MAX_REACH,
        ensures
            r.wf(),
            r.chunk_size == chunk_size,
            r.chunks@ == Map::<u128, Vec<ForeignerInfo>>::empty(),
    {
        EnvironmentAwareness { chunk_size, chunks: HashMap::new() }
    }

    pub fn get_chunks(&self) -> (r: &HashMap<u128, Vec<ForeignerInfo>>)
        ensures
            r == &self.chunks,
    {
        &self.chunks
    }

    /// The cell of coordinate `v` along one axis.
    fn cell_index(&self, v: i64) -> (r: i64)
        requires
            0 < self.chunk_size <= MAX_REACH,
            -QUERY_LIMIT <= v <= QUERY_LIMIT,
        ensures
            r == cell_of(v as int, self.chunk_size as int),
            -CELL_LIMIT <= r <= CELL_LIMIT,
    {
        let size = self.chunk_size as u128;
        let k: u128 = (QUERY_LIMIT as u128) / size + 1;
        assert(k * size <= QUERY_LIMIT + size) by (nonlinear_arith)
            requires
                k == (QUERY_LIMIT as int) / (size as int) + 1,
                size > 0,
        ;
        assert(k * size > QUERY_LIMIT) by (nonlinear_arith)
            requires
                k == (QUERY_LIMIT as int) / (size as int) + 1,
                size > 0,
        ;
        let shifted: u128 = (v as i128 + (size / 2) as i128 + (k * size) as i128) as u128;
        let q: u128 = shifted / size;
        proof {
            vstd::arithmetic::div_mod::lemma_hoist_over_denominator(
                v + (size / 2) as int,
                k as int,
                size as nat,
            );
        }
        let r: i128 = q as i128 - k as i128;
        proof {
            lemma_cell_bounds(v as int, size as int);
        }
        r as i64
    }

    /// The key of a cell.
    fn chunk_key(cx: i64, cy: i64) -> (r: u128)
        ensures
            r == cell_key(cx as int, cy as int),
    {
        let a: u128 = (cx as i128 + KEY_OFFSET) as u128;
        let b: u128 = (cy as i128 + KEY_OFFSET) as u128;
        a * KEY_BASE + b
    }

    /// The cell that holds `point`.
    pub fn get_chunk_index_on_point(&self, point: Point) -> (r: ChunkIndex)
        requires
            0 < self.chunk_size <= MAX_REACH,
            point.in_world(),
        ensures
            r.x == cell_of(point.x as int, self.chunk_size as int),
            r.y == cell_of(point.y as int, self.chunk_size as int),
    {
        ChunkIndex { x: self.cell_index(point.x), y: self.cell_index(point.y) }
    }

    /// The square area a cell covers.
    pub fn get_chunk_coordinates(&self, index: ChunkIndex) -> (r: Rect)
        requires
            0 < self.chunk_size <= MAX_REACH,
            -QUERY_LIMIT <= index.x * self.chunk_size <= QUERY_LIMIT,
            -QUERY_LIMIT <= index.y * self.chunk_size <= QUERY_LIMIT,
        ensures
            r.x == index.x * self.chunk_size - self.chunk_size / 2,
            r.y == index.y * self.chunk_size - self.chunk_size / 2,
            r.w == self.chunk_size,
            r.h == self.chunk_size,
    {
        let size = self.chunk_size as i128;
        let half = size / 2;
        let x = index.x as i128 * size - half;
        let y = index.y as i128 * size - half;
        Rect { x: x as i64, y: y as i64, w: self.chunk_size as i64, h: self.chunk_size as i64 }
    }

    /// The key of the cell that holds `p`.
    fn key_on_point(&self, p: Point) -> (r: u128)
        requires
            0 < self.chunk_size <= MAX_REACH,
            p.in_world(),
        ensures
            r == self.key_of(p),
    {
        let c = self.get_chunk_index_on_point(p);
        Self::chunk_key(c.x, c.y)
    }

    /// The records filed in the cell that holds `point`, if any.
    pub fn get_chunk_on_point(&self, point: Point) -> (r: Option<&Vec<ForeignerInfo>>)
        requires
            0 < self.chunk_size <= MAX_REACH,
            point.in_world(),
        ensures
            match r {
                Some(v) => self.chunks@.contains_key(self.key_of(point) as u128) && *v
                    == self.chunks@[self.key_of(point) as u128],
                None => !self.chunks@.contains_key(self.key_of(point) as u128),
            },
    {
        let k = self.key_on_point(point);
        self.chunks.get(&k)
    }

    /// Empties the index and files the record of every organism under the
    /// cell of its position.
    pub fn refill(&mut self, organisms: &Vec<Organism>)
        requires
            0 < old(self).chunk_size <= MAX_REACH,
            forall|j: int|
                0 <= j < organisms@.len() ==> (#[trigger] organisms@[j]).shared_state.position.in_world(),
        ensures
            final(self).wf(),
            final(self).chunk_size == old(self).chunk_size,
            final(self).holds_exactly(organisms@),
            ids_unique(organisms@) ==> final(self).records_distinct(),
    {
        self.chunks.clear();
        let mut i: usize = 0;
        while i < organisms.len()
            invariant
                0 < self.chunk_size <= MAX_REACH,
                self.chunk_size == old(self).chunk_size,
                forall|j: int|
                    0 <= j < organisms@.len() ==> (#[trigger] organisms@[j]).shared_state.position.in_world(),
                i <= organisms.len(),
                self.wf(),
                self.holds_first(organisms@, i as int),
                ids_unique(organisms@) ==> self.records_distinct(),
            decreases organisms.len() - i,
        {
            let info = ForeignerInfo::new(&organisms[i]);
            let k = self.key_on_point(info.position);
            let ghost before = self.chunks@;
            let mut chunk = match self.chunks.remove(&k) {
                Some(v) => v,
                None => Vec::new(),
            };
            let ghost old_chunk = chunk@;
            assert(before.contains_key(k) ==> old_chunk == before[k]@);
            assert(!before.contains_key(k) ==> old_chunk.len() == 0);
            proof {
                if ids_unique(organisms@) {
                    assert forall|m: int| 0 <= m < old_chunk.len() implies old_chunk[m] != info by {
                        let j = choose|j: int|
                            0 <= j < i && #[trigger] before[k]@[m] == foreigner_info_spec(organisms@[j]);
                        assert(before[k]@[m] == foreigner_info_spec(organisms@[j]));
                        assert(organisms@[j].id != organisms@[i as int].id);
                    }
                }
            }
            chunk.push(info);
            self.chunks.insert(k, chunk);
            proof {
                if ids_unique(organisms@) {
                    assert(chunk@.no_duplicates()) by {
                        assert forall|a: int, b: int|
                            0 <= a < b < chunk@.len() implies chunk@[a] != chunk@[b] by {
                            if b == chunk@.len() - 1 {
                                assert(chunk@[a] == old_chunk[a]);
                            } else {
                                assert(chunk@[a] == old_chunk[a]);
                                assert(chunk@[b] == old_chunk[b]);
                            }
                        }
                    }
                    assert forall|kk: u128| self.chunks@.contains_key(kk) implies (
                    #[trigger] self.chunks@[kk])@.no_duplicates() by {
                        if kk != k {
                            assert(self.chunks@[kk] == before[kk]);
                        }
                    }
                }
                assert(self.chunks@ == before.insert(k, chunk));
                assert forall|j: int| 0 <= j < i + 1 implies self.has(
                    #[trigger] foreigner_info_spec(organisms@[j]),
                ) by {
                    let e = foreigner_info_spec(organisms@[j]);
                    if j < i {
                        let ke = self.key_of(e.position) as u128;
                        if ke == k {
                            lemma_push_keeps(old_chunk, info, e);
                        }
                    } else {
                        assert(chunk@[chunk@.len() - 1] == e);
                    }
                }
                assert forall|kk: u128, n: int|
                    self.chunks@.contains_key(kk) && 0 <= n < self.chunks@[kk]@.len() implies exists|j: int|
                        0 <= j < i + 1 && #[trigger] self.chunks@[kk]@[n] == foreigner_info_spec(
                            organisms@[j],
                        ) by {
                    if kk == k {
                        if n < old_chunk.len() {
                            assert(self.chunks@[kk]@[n] == before[k]@[n]);
                        } else {
                            assert(self.chunks@[kk]@[n] == foreigner_info_spec(organisms@[i as int]));
                        }
                    } else {
                        assert(self.chunks@[kk] == before[kk]);
                    }
                }
            }
            i = i + 1;
        }
    }

    /// The cells of the rectangle's corners: left, top, right, bottom.
    fn left_top_right_bottom_indexes(&self, rect: Rect) -> (r: (i64, i64, i64, i64))
        requires
            0 < self.chunk_size <= MAX_REACH,
            rect.bounded(),
        ensures
            r.0 == cell_of(rect.x as int, self.chunk_size as int),
            r.1 == cell_of(rect.y as int, self.chunk_size as int),
            r.2 == cell_of(rect.x + rect.w, self.chunk_size as int),
            r.3 == cell_of(rect.y + rect.h, self.chunk_size as int),
            -CELL_LIMIT <= r.0 && r.2 <= CELL_LIMIT,
            -CELL_LIMIT <= r.1 && r.3 <= CELL_LIMIT,
    {
        let left = self.cell_index(rect.x);
        let top = self.cell_index(rect.y);
        let right = self.cell_index(rect.x + rect.w);
        let bottom = self.cell_index(rect.y + rect.h);
        (left, top, right, bottom)
    }

    /// Every record filed in a cell that the rectangle overlaps, and no
    /// other.
    pub fn get_chunks_in_rect(&self, rect: Rect) -> (r: Vec<ForeignerInfo>)
        requires
            self.wf(),
            rect.bounded(),
        ensures
            forall|e: ForeignerInfo|
                #![trigger r@.contains(e)]
                r@.contains(e) <==> (self.has(e) && self.in_rect_cells(rect, e)),
            self.records_distinct() ==> r@.no_duplicates(),
    {
        let ghost s = self.chunk_size as int;
        let (left, top, right, bottom) = self.left_top_right_bottom_indexes(rect);
        let mut result: Vec<ForeignerInfo> = Vec::new();
        let mut y: i64 = top;
        while y <= bottom
            invariant
                self.wf(),
                s == self.chunk_size,
                left == cell_of(rect.x as int, s),
                top == cell_of(rect.y as int, s),
                right == cell_of(rect.x + rect.w, s),
                bottom == cell_of(rect.y + rect.h, s),
                -CELL_LIMIT <= left && right <= CELL_LIMIT,
                -CELL_LIMIT <= top && bottom <= CELL_LIMIT,
                top <= y,
                y <= bottom + 1 || y == top,
                forall|n: int|
                    0 <= n < result@.len() ==> self.has(#[trigger] result@[n]) && self.in_rect_cells(
                        rect,
                        result@[n],
                    ),
                forall|e: ForeignerInfo|
                    #![trigger self.has(e)]
                    self.has(e) && self.in_rect_cells(rect, e) && cell_of(e.position.y as int, s)
                        < y ==> result@.contains(e),
                forall|n: int|
                    0 <= n < result@.len() ==> cell_before(#[trigger] result@[n], s, left as int, y as int),
                self.records_distinct() ==> result@.no_duplicates(),
            decreases bottom + 1 - y,
        {
            let mut x: i64 = left;
            while x <= right
                invariant
                    self.wf(),
                    s == self.chunk_size,
                    left == cell_of(rect.x as int, s),
                    top == cell_of(rect.y as int, s),
                    right == cell_of(rect.x + rect.w, s),
                    bottom == cell_of(rect.y + rect.h, s),
                    -CELL_LIMIT <= left && right <= CELL_LIMIT,
                    -CELL_LIMIT <= top && bottom <= CELL_LIMIT,
                    top <= y <= bottom,
                    left <= x,
                    x <= right + 1 || x == left,
                    forall|n: int|
                        0 <= n < result@.len() ==> self.has(#[trigger] result@[n])
                            && self.in_rect_cells(rect, result@[n]),
                    forall|e: ForeignerInfo|
                        #![trigger self.has(e)]
                        self.has(e) && self.in_rect_cells(rect, e) && (cell_of(e.position.y as int, s)
                            < y || (cell_of(e.position.y as int, s) == y && cell_of(
                            e.position.x as int,
                            s,
                        ) < x)) ==> result@.contains(e),
                    forall|n: int|
                        0 <= n < result@.len() ==> cell_before(#[trigger] result@[n], s, x as int, y as int),
                    self.records_distinct() ==> result@.no_duplicates(),
                decreases right + 1 - x,
            {
                let key = Self::chunk_key(x, y);
                match self.chunks.get(&key) {
                    Some(chunk) => {
                        let ghost pre = result@;
                        let mut n: usize = 0;
                        while n < chunk.len()
                            invariant
                                self.wf(),
                                s == self.chunk_size,
                                self.chunks@.contains_key(key),
                                self.chunks@[key] == *chunk,
                                key == cell_key(x as int, y as int),
                                left == cell_of(rect.x as int, s),
                                top == cell_of(rect.y as int, s),
                                right == cell_of(rect.x + rect.w, s),
                                bottom == cell_of(rect.y + rect.h, s),
                                top <= y <= bottom,
                                left <= x <= right,
                                n <= chunk@.len(),
                                forall|m: int| 0 <= m < n ==> result@.contains(#[trigger] chunk@[m]),
                                forall|n: int|
                                    0 <= n < result@.len() ==> self.has(#[trigger] result@[n])
                                        && self.in_rect_cells(rect, result@[n]),
                                forall|e: ForeignerInfo|
                                    #![trigger self.has(e)]
                                    self.has(e) && self.in_rect_cells(rect, e) && (cell_of(
                                        e.position.y as int,
                                        s,
                                    ) < y || (cell_of(e.position.y as int, s) == y && cell_of(
                                        e.position.x as int,
                                        s,
                                    ) < x)) ==> result@.contains(e),
                                result@ == pre + chunk@.subrange(0, n as int),
                                forall|k: int|
                                    0 <= k < pre.len() ==> cell_before(#[trigger] pre[k], s, x as int, y as int),
                                forall|m: int|
                                    0 <= m < n ==> cell_is(#[trigger] chunk@[m], s, x as int, y as int),
                                self.records_distinct() ==> result@.no_duplicates(),
                            decreases chunk@.len() - n,
                        {
                            let item = chunk[n].duplicate();
                            let ghost before = result@;
                            proof {
                                let p = item.position;
                                assert(self.chunks@[key]@[n as int] == item);
                                lemma_cell_bounds(p.x as int, s);
                                lemma_cell_bounds(p.y as int, s);
                                lemma_cell_key_injective(
                                    cell_of(p.x as int, s),
                                    cell_of(p.y as int, s),
                                    x as int,
                                    y as int,
                                );
                                assert(chunk@.contains(item));
                                assert(cell_is(item, s, x as int, y as int));
                                if self.records_distinct() {
                                    assert(chunk@.no_duplicates());
                                    assert forall|k: int| 0 <= k < before.len() implies before[k]
                                        != item by {
                                        if k >= pre.len() {
                                            assert(before[k] == chunk@[k - pre.len()]);
                                        } else {
                                            assert(cell_before(pre[k], s, x as int, y as int));
                                        }
                                    }
                                }
                            }
                            result.push(item);
                            proof {
                                assert(result@ =~= pre + chunk@.subrange(0, n as int + 1));
                                if self.records_distinct() {
                                    assert forall|a: int, b: int|
                                        0 <= a < b < result@.len() implies result@[a] != result@[b] by {
                                        if b < before.len() {
                                            assert(result@[a] == before[a]);
                                            assert(result@[b] == before[b]);
                                        } else {
                                            assert(result@[a] == before[a]);
                                        }
                                    }
                                }
                                assert forall|e: ForeignerInfo|
                                    #![trigger self.has(e)]
                                    self.has(e) && self.in_rect_cells(rect, e) && (cell_of(
                                        e.position.y as int,
                                        s,
                                    ) < y || (cell_of(e.position.y as int, s) == y && cell_of(
                                        e.position.x as int,
                                        s,
                                    ) < x)) implies result@.contains(e) by {
                                    lemma_push_keeps(before, item, e);
                                }
                                assert forall|m: int| 0 <= m < n + 1 implies result@.contains(
                                    #[trigger] chunk@[m],
                                ) by {
                                    if m < n {
                                        lemma_push_keeps(before, item, chunk@[m]);
                                    } else {
                                        assert(result@[result@.len() - 1] == item);
                                    }
                                }
                            }
                            n = n + 1;
                        }
                        proof {
                            assert forall|e: ForeignerInfo|
                                #![trigger self.has(e)]
                                self.has(e) && self.in_rect_cells(rect, e) && (cell_of(
                                    e.position.y as int,
                                    s,
                                ) < y || (cell_of(e.position.y as int, s) == y && cell_of(
                                    e.position.x as int,
                                    s,
                                ) < x + 1)) implies result@.contains(e) by {
                                if cell_of(e.position.y as int, s) == y && cell_of(
                                    e.position.x as int,
                                    s,
                                ) == x {
                                    let m = choose|m: int| 0 <= m < chunk@.len() && chunk@[m] == e;
                                    assert(result@.contains(chunk@[m]));
                                }
                            }
                            assert(result@ =~= pre + chunk@);
                            assert forall|k: int| 0 <= k < result@.len() implies cell_before(
                                #[trigger] result@[k],
                                s,
                                x as int + 1,
                                y as int,
                            ) by {
                                if k < pre.len() {
                                    assert(cell_before(pre[k], s, x as int, y as int));
                                } else {
                                    assert(result@[k] == chunk@[k - pre.len()]);
                                    assert(cell_is(chunk@[k - pre.len()], s, x as int, y as int));
                                }
                            }
                        }
                    },
                    None => {
                        proof {
                            assert forall|e: ForeignerInfo|
                                #![trigger self.has(e)]
                                self.has(e) && self.in_rect_cells(rect, e) && (cell_of(
                                    e.position.y as int,
                                    s,
                                ) < y || (cell_of(e.position.y as int, s) == y && cell_of(
                                    e.position.x as int,
                                    s,
                                ) < x + 1)) implies result@.contains(e) by {
                                if cell_of(e.position.y as int, s) == y && cell_of(
                                    e.position.x as int,
                                    s,
                                ) == x {
                                    assert(self.key_of(e.position) == key);
                                }
                            }
                        }
                    },
                }
                x = x + 1;
            }
            y = y + 1;
        }
        proof {
            assert forall|e: ForeignerInfo| #[trigger]
                result@.contains(e) implies self.has(e) && self.in_rect_cells(rect, e) by {
                let n = choose|n: int| 0 <= n < result@.len() && result@[n] == e;
                assert(self.has(result@[n]));
            }
        }
        result
    }

    /// Every record filed in a cell that the square of half-side `radius`
    /// around `position` overlaps. This is a superset of the records truly
    /// within `radius`; callers that need a circle filter by exact distance.
    pub fn get_radius_around(&self, position: Point, radius: u64) -> (r: Vec<ForeignerInfo>)
        requires
            self.wf(),
            position.in_world(),
            radius <= MAX_REACH,
        ensures
            forall|e: ForeignerInfo|
                #![trigger r@.contains(e)]
                r@.contains(e) <==> (self.has(e) && self.in_rect_cells(
                    square_around(position, radius as int),
                    e,
                )),
            self.records_distinct() ==> r@.no_duplicates(),
    {
        let rect = Rect {
            x: position.x - radius as i64,
            y: position.y - radius as i64,
            w: 2 * radius as i64,
            h: 2 * radius as i64,
        };
        self.get_chunks_in_rect(rect)
    }
}

/// A record the index holds lies in the world.
pub proof fn lemma_held_in_world(aw: EnvironmentAwareness, e: ForeignerInfo)
    requires
        aw.wf(),
        aw.has(e),
    ensures
        e.position.in_world(),
{
    let k = aw.key_of(e.position) as u128;
    let i = choose|i: int| 0 <= i < aw.chunks@[k]@.len() && aw.chunks@[k]@[i] == e;
    assert(aw.chunks@[k]@[i] == e);
}

/// A coordinate within `radius` of `c` lies in a cell between those of
/// `c - radius` and `c + radius`.
proof fn lemma_cell_within(c: int, v: int, radius: int, size: int)
    requires
        c - radius <= v <= c + radius,
        0 < size,
    ensures
        cell_of(c - radius, size) <= cell_of(v, size) <= cell_of(c + radius, size),
{
    vstd::arithmetic::div_mod::lemma_div_is_ordered(c - radius + size / 2, v + size / 2, size);
    vstd::arithmetic::div_mod::lemma_div_is_ordered(v + size / 2, c + radius + size / 2, size);
}

/// Spatial index completeness: a radius query reaches every record of the
/// index whose position lies truly within the radius of the centre.
pub proof fn lemma_radius_query_complete(
    aw: EnvironmentAwareness,
    center: Point,
    radius: int,
    e: ForeignerInfo,
)
    requires
        aw.wf(),
        aw.has(e),
        center.in_world(),
        0 <= radius <= MAX_REACH,
        dist_sq(center, e.position) <= radius * radius,
    ensures
        aw.in_rect_cells(square_around(center, radius), e),
{
    lemma_held_in_world(aw, e);
    let dx = center.x - e.position.x;
    let dy = center.y - e.position.y;
    assert(-radius <= dx <= radius) by (nonlinear_arith)
        requires
            dx * dx + dy * dy <= radius * radius,
            radius >= 0,
    ;
    assert(-radius <= dy <= radius) by (nonlinear_arith)
        requires
            dx * dx + dy * dy <= radius * radius,
            radius >= 0,
    ;
    lemma_cell_within(center.x as int, e.position.x as int, radius, aw.chunk_size as int);
    lemma_cell_within(center.y as int, e.position.y as int, radius, aw.chunk_size as int);
}

/// After a refill, a radius query reaches the record of every organism
/// truly within the radius of the centre: no organism is missed.
pub proof fn lemma_refilled_index_finds_neighbours(
    aw: EnvironmentAwareness,
    organisms: Seq<Organism>,
    j: int,
    center: Point,
    radius: int,
)
    requires
        aw.wf(),
        aw.holds_exactly(organisms),
        0 <= j < organisms.len(),
        center.in_world(),
        0 <= radius <= MAX_REACH,
        dist_sq(center, organisms[j].shared_state.position) <= radius * radius,
    ensures
        aw.has(foreigner_info_spec(organisms[j])),
        aw.in_rect_cells(square_around(center, radius), foreigner_info_spec(organisms[j])),
{
    lemma_radius_query_complete(aw, center, radius, foreigner_info_spec(organisms[j]));
}

} // verus!
