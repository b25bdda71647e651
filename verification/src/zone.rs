use vstd::prelude::*;
use crate::battle::{EnemyStats, HitOutcome, sat_sub};
use rand::distributions::Distribution;
use rand::seq::IteratorRandom;

verus! {

/// What a map is used for.
#[derive(Clone, Copy, Debug, PartialEq, Eq, Structural)]
pub enum MapType {
    Lobby,
    QuestMap,
}

// ---------------------------------------------------------------------------
// Minimap
// ---------------------------------------------------------------------------

/// The number of minimap rows.
pub const MINIMAP_ROWS: u8 = 8;

/// The number of minimap columns.
pub const MINIMAP_COLUMNS: u8 = 10;

/// Whether bit `idx` (least significant bit first) of `bytes` is set.
pub open spec fn cell(bytes: [u8; 10], idx: int) -> bool {
    (bytes[idx / 8] >> ((idx % 8) as u8)) & 1u8 == 1u8
}

/// The revealed cells of a zone's minimap: eight rows of ten cells, stored
/// row after row in ten bytes, least significant bit first.
#[derive(Clone, Copy, Debug)]
pub struct Minimap {
    bits: [u8; 10],
}

impl View for Minimap {
    type V = Seq<bool>;

    /// Cell `row * 10 + column` is true when that cell is revealed.
    closed spec fn view(&self) -> Seq<bool> {
        Seq::new(80, |i: int| cell(self.bits, i))
    }
}

proof fn lemma_set_bit_u8(b: u8, i: u8, j: u8)
    requires
        i < 8,
        j < 8,
    ensures
        ((b | (1u8 << i)) >> j) & 1u8 == if i == j { 1u8 } else { (b >> j) & 1u8 },
{
    assert(((b | (1u8 << i)) >> j) & 1u8 == if i == j { 1u8 } else { (b >> j) & 1u8 }) by (bit_vector)
        requires
            i < 8,
            j < 8,
    ;
}

proof fn lemma_zero_byte(j: u8)
    requires
        j < 8,
    ensures
        (0u8 >> j) & 1u8 == 0u8,
{
    assert((0u8 >> j) & 1u8 == 0u8) by (bit_vector);
}

impl Minimap {
    /// A minimap with nothing revealed.
    pub fn new() -> (r: Self)
        ensures
            r@ == Seq::new(80, |i: int| false),
    {
        let r = Minimap { bits: [0u8; 10] };
        proof {
            assert forall|i: int| 0 <= i < 80 implies !cell(r.bits, i) by {
                lemma_zero_byte((i % 8) as u8);
            }
            assert(r@ =~= Seq::new(80, |i: int| false));
        }
        r
    }

    /// The ten bytes of the minimap, as they are sent to clients.
    pub fn bytes(&self) -> (r: [u8; 10])
        ensures
            forall|i: int| 0 <= i < 80 ==> (cell(r, i) == #[trigger] self@[i]),
    {
        self.bits
    }

    /// A minimap with the cells that `bytes` holds.
    pub fn from_bytes(bytes: [u8; 10]) -> (r: Self)
        ensures
            forall|i: int| 0 <= i < 80 ==> (#[trigger] r@[i] == cell(bytes, i)),
            r@.len() == 80,
    {
        Minimap { bits: bytes }
    }

    /// Whether the cell at `row` and `column` (both counted from 0) is revealed.
    pub fn is_revealed(&self, row: u8, column: u8) -> (r: bool)
        requires
            row < MINIMAP_ROWS,
            column < MINIMAP_COLUMNS,
        ensures
            r == self@[row * 10 + column],
    {
        let idx = row as usize * 10 + column as usize;
        (self.bits[idx / 8] >> ((idx % 8) as u8)) & 1u8 == 1u8
    }

    /// Reveals the cell at `row` and `column`, both counted from 1 as the
    /// map data gives them; every other cell keeps its state.
    pub fn reveal_cell(&mut self, row: u8, column: u8)
        requires
            1 <= row <= MINIMAP_ROWS,
            1 <= column <= MINIMAP_COLUMNS,
        ensures
            final(self)@ == old(self)@.update((row - 1) * 10 + column - 1, true),
    {
        let idx = (row as usize - 1) * 10 + (column as usize - 1);
        let byte = idx / 8;
        let bit = (idx % 8) as u8;
        let old_byte = self.bits[byte];
        self.bits[byte] = old_byte | (1u8 << bit);
        proof {
            assert forall|i: int| 0 <= i < 80 implies #[trigger] self@[i] == old(self)@.update(idx as int, true)[i] by {
                if i / 8 == byte as int {
                    lemma_set_bit_u8(old_byte, bit, (i % 8) as u8);
                }
            }
            assert(self@ =~= old(self)@.update(idx as int, true));
        }
    }

    /// Reveals every cell that a chunk lists, as (row, column) pairs counted
    /// from 1.
    pub fn reveal_all(&mut self, reveals: &Vec<(u8, u8)>)
        requires
            forall|k: int| 0 <= k < reveals@.len() ==> 1 <= (#[trigger] reveals@[k]).0 <= MINIMAP_ROWS
                && 1 <= reveals@[k].1 <= MINIMAP_COLUMNS,
        ensures
            final(self)@.len() == 80,
            forall|i: int| 0 <= i < 80 ==> (#[trigger] final(self)@[i] <==> old(self)@[i] || exists|k: int|
                0 <= k < reveals@.len() && (reveals@[k].0 - 1) * 10 + reveals@[k].1 - 1 == i),
    {
        let mut k: usize = 0;
        while k < reveals.len()
            invariant
                k <= reveals@.len(),
                self@.len() == 80,
                forall|j: int| 0 <= j < reveals@.len() ==> 1 <= (#[trigger] reveals@[j]).0 <= MINIMAP_ROWS
                    && 1 <= reveals@[j].1 <= MINIMAP_COLUMNS,
                forall|i: int| 0 <= i < 80 ==> (#[trigger] self@[i] <==> old(self)@[i] || exists|j: int|
                    0 <= j < k && (reveals@[j].0 - 1) * 10 + reveals@[j].1 - 1 == i),
            decreases reveals@.len() - k,
        {
            let (row, column) = reveals[k];
            let ghost before = self@;
            self.reveal_cell(row, column);
            proof {
                assert forall|i: int| 0 <= i < 80 implies (#[trigger] self@[i] <==> old(self)@[i] || exists|j: int|
                    0 <= j < k + 1 && (reveals@[j].0 - 1) * 10 + reveals@[j].1 - 1 == i) by {
                    if i == (row - 1) * 10 + column - 1 {
                        assert(reveals@[k as int].0 == row && reveals@[k as int].1 == column);
                    } else {
                        assert(self@[i] == before[i]);
                        if exists|j: int| 0 <= j < k + 1 && (reveals@[j].0 - 1) * 10 + reveals@[j].1 - 1 == i {
                            let j = choose|j: int| 0 <= j < k + 1 && (reveals@[j].0 - 1) * 10 + reveals@[j].1 - 1 == i;
                            assert(j != k);
                        }
                    }
                }
            }
            k = k + 1;
        }
    }
}

/// Revealing is never undone, and revealing a cell twice is the same as once.
pub proof fn law_reveal_monotone(cells: Seq<bool>, idx: int, other: int)
    requires
        cells.len() == 80,
        0 <= idx < 80,
        0 <= other < 80,
    ensures
        cells[other] ==> cells.update(idx, true)[other],
        cells.update(idx, true).update(idx, true) == cells.update(idx, true),
        cells.update(idx, true)[idx],
{
    assert(cells.update(idx, true).update(idx, true) =~= cells.update(idx, true));
}

// ---------------------------------------------------------------------------
// Object ids
// ---------------------------------------------------------------------------

/// The largest id of `ids`, or 0 when there is none.
pub open spec fn max_id(ids: Seq<u32>) -> u32
    decreases ids.len(),
{
    if ids.len() == 0 {
        0
    } else {
        let m = max_id(ids.drop_last());
        if ids.last() > m {
            ids.last()
        } else {
            m
        }
    }
}

proof fn lemma_max_id_bound(ids: Seq<u32>, i: int)
    requires
        0 <= i < ids.len(),
    ensures
        ids[i] <= max_id(ids),
    decreases ids.len(),
{
    if i < ids.len() - 1 {
        lemma_max_id_bound(ids.drop_last(), i);
    }
}

fn largest(ids: &Vec<u32>) -> (r: u32)
    ensures
        r == max_id(ids@),
{
    let mut m: u32 = 0;
    let mut i: usize = 0;
    while i < ids.len()
        invariant
            i <= ids@.len(),
            m == max_id(ids@.take(i as int)),
        decreases ids@.len() - i,
    {
        proof {
            assert(ids@.take(i + 1).drop_last() =~= ids@.take(i as int));
        }
        if ids[i] > m {
            m = ids[i];
        }
        i = i + 1;
    }
    proof {
        assert(ids@.take(i as int) =~= ids@);
    }
    m
}

/// The id after every object id of a zone: one more than the largest id of
/// its objects, NPCs, events and transporters (0 for none).
pub open spec fn next_id_spec(objects: Seq<u32>, npcs: Seq<u32>, events: Seq<u32>, transporters: Seq<u32>) -> int {
    let a = max_id(objects);
    let b = max_id(npcs);
    let c = max_id(events);
    let d = max_id(transporters);
    let ab = if a >= b { a } else { b };
    let abc = if ab >= c { ab } else { c };
    let abcd = if abc >= d { abc } else { d };
    abcd + 1
}

/// The first id that new objects of a zone get (see [`next_id_spec`]).
pub fn find_max_id(objects: &Vec<u32>, npcs: &Vec<u32>, events: &Vec<u32>, transporters: &Vec<u32>) -> (r: u32)
    requires
        next_id_spec(objects@, npcs@, events@, transporters@) <= u32::MAX,
    ensures
        r == next_id_spec(objects@, npcs@, events@, transporters@),
        forall|i: int| 0 <= i < objects@.len() ==> #[trigger] objects@[i] < r,
        forall|i: int| 0 <= i < npcs@.len() ==> #[trigger] npcs@[i] < r,
        forall|i: int| 0 <= i < events@.len() ==> #[trigger] events@[i] < r,
        forall|i: int| 0 <= i < transporters@.len() ==> #[trigger] transporters@[i] < r,
{
    let a = largest(objects);
    let b = largest(npcs);
    let c = largest(events);
    let d = largest(transporters);
    let ab = if a >= b { a } else { b };
    let abc = if ab >= c { ab } else { c };
    let abcd = if abc >= d { abc } else { d };
    proof {
        assert forall|i: int| 0 <= i < objects@.len() implies #[trigger] objects@[i] < abcd + 1 by {
            lemma_max_id_bound(objects@, i);
        }
        assert forall|i: int| 0 <= i < npcs@.len() implies #[trigger] npcs@[i] < abcd + 1 by {
            lemma_max_id_bound(npcs@, i);
        }
        assert forall|i: int| 0 <= i < events@.len() implies #[trigger] events@[i] < abcd + 1 by {
            lemma_max_id_bound(events@, i);
        }
        assert forall|i: int| 0 <= i < transporters@.len() implies #[trigger] transporters@[i] < abcd + 1 by {
            lemma_max_id_bound(transporters@, i);
        }
    }
    abcd + 1
}

// ---------------------------------------------------------------------------
// Enemy spawns of map chunks
// ---------------------------------------------------------------------------

/// How the enemies of a map chunk appear when a player reveals it.
#[derive(Clone, Copy, Debug, PartialEq, Eq, Structural)]
pub enum SpawnKind {
    /// No enemies.
    Disabled,
    /// Once per zone: between `min` and `max` enemies.
    Automatic { min: u32, max: u32 },
    /// Like `Automatic`, and again once `respawn_ns` nanoseconds have passed
    /// since the chunk first spawned.
    AutomaticWithRespawn { min: u32, max: u32, respawn_ns: u64 },
    /// The zone's script spawns them.
    Manual,
}

/// What revealing a chunk does about enemies.
#[derive(Clone, Copy, Debug, PartialEq, Eq, Structural)]
pub enum SpawnPlan {
    Nothing,
    /// Spawn `count` enemies.
    Spawn { count: u32 },
    /// Run the zone's spawn script.
    RunScript,
}

/// `pos` is the first record of chunk `chunk`.
pub open spec fn is_first_record(records: Seq<(u32, u64)>, pos: int, chunk: u32) -> bool {
    &&& 0 <= pos < records.len()
    &&& records[pos].0 == chunk
    &&& forall|j: int| 0 <= j < pos ==> (#[trigger] records[j]).0 != chunk
}

/// When chunk `chunk` first spawned, if it did.
pub open spec fn spawned_at(records: Seq<(u32, u64)>, chunk: u32) -> Option<u64> {
    if exists|p: int| #[trigger] is_first_record(records, p, chunk) {
        Some(records[choose|p: int| #[trigger] is_first_record(records, p, chunk)].1)
    } else {
        None
    }
}

/// `now - since`, or 0 when `since` is later.
pub open spec fn elapsed(now: u64, since: u64) -> u64 {
    if now >= since {
        (now - since) as u64
    } else {
        0
    }
}

/// Revealing chunk `chunk` of kind `kind` at time `now` (nanoseconds), with
/// `drawn` the number of enemies drawn for it: the new spawn records and the
/// plan. A chunk that spawns for the first time is recorded; an automatic
/// chunk spawns only then; a respawning one also spawns whenever more than
/// its respawn time has passed since that first spawn.
pub open spec fn spawn_step(records: Seq<(u32, u64)>, chunk: u32, kind: SpawnKind, now: u64, drawn: u32) -> (
    Seq<(u32, u64)>,
    SpawnPlan,
) {
    match kind {
        SpawnKind::Disabled => (records, SpawnPlan::Nothing),
        SpawnKind::Manual => (records, SpawnPlan::RunScript),
        SpawnKind::Automatic { .. } => match spawned_at(records, chunk) {
            None => (records.push((chunk, now)), SpawnPlan::Spawn { count: drawn }),
            Some(_) => (records, SpawnPlan::Nothing),
        },
        SpawnKind::AutomaticWithRespawn { respawn_ns, .. } => match spawned_at(records, chunk) {
            None => (records.push((chunk, now)), SpawnPlan::Spawn { count: drawn }),
            Some(t) => if elapsed(now, t) > respawn_ns {
                (records, SpawnPlan::Spawn { count: drawn })
            } else {
                (records, SpawnPlan::Nothing)
            },
        },
    }
}

/// The chunks of a zone that have spawned enemies, with the time of their
/// first spawn.
pub struct ChunkSpawns {
    records: Vec<(u32, u64)>,
}

impl View for ChunkSpawns {
    type V = Seq<(u32, u64)>;

    closed spec fn view(&self) -> Seq<(u32, u64)> {
        self.records@
    }
}

impl ChunkSpawns {
    /// No chunk has spawned.
    pub fn new() -> (r: Self)
        ensures
            r@ == Seq::<(u32, u64)>::empty(),
    {
        ChunkSpawns { records: Vec::new() }
    }

    fn find(&self, chunk: u32) -> (r: Option<u64>)
        ensures
            r == spawned_at(self@, chunk),
    {
        let mut i: usize = 0;
        while i < self.records.len()
            invariant
                i <= self@.len(),
                forall|j: int| 0 <= j < i ==> (#[trigger] self@[j]).0 != chunk,
            decreases self@.len() - i,
        {
            if self.records[i].0 == chunk {
                proof {
                    assert(is_first_record(self@, i as int, chunk));
                    let c = choose|c: int| #[trigger] is_first_record(self@, c, chunk);
                    if c < i {
                        assert(self@[c].0 != chunk);
                    } else if i < c {
                        assert(self@[i as int].0 != chunk);
                    }
                }
                return Some(self.records[i].1);
            }
            i = i + 1;
        }
        proof {
            if exists|c: int| #[trigger] is_first_record(self@, c, chunk) {
                let c = choose|c: int| #[trigger] is_first_record(self@, c, chunk);
                assert(self@[c].0 != chunk);
            }
        }
        None
    }

    /// A player revealed chunk `chunk` of kind `kind` at time `now`
    /// (nanoseconds); `drawn` is the number of enemies drawn uniformly between
    /// the kind's bounds (see [`spawn_step`]).
    pub fn on_reveal(&mut self, chunk: u32, kind: SpawnKind, now: u64, drawn: u32) -> (r: SpawnPlan)
        requires
            kind matches SpawnKind::Automatic { min, max } ==> min <= drawn <= max,
            kind matches SpawnKind::AutomaticWithRespawn { min, max, .. } ==> min <= drawn <= max,
        ensures
            (final(self)@, r) == spawn_step(old(self)@, chunk, kind, now, drawn),
    {
        match kind {
            SpawnKind::Disabled => SpawnPlan::Nothing,
            SpawnKind::Manual => SpawnPlan::RunScript,
            SpawnKind::Automatic { .. } => match self.find(chunk) {
                None => {
                    self.records.push((chunk, now));
                    SpawnPlan::Spawn { count: drawn }
                },
                Some(_) => SpawnPlan::Nothing,
            },
            SpawnKind::AutomaticWithRespawn { respawn_ns, .. } => match self.find(chunk) {
                None => {
                    self.records.push((chunk, now));
                    SpawnPlan::Spawn { count: drawn }
                },
                Some(t) => {
                    let passed = now.saturating_sub(t);
                    if passed > respawn_ns {
                        SpawnPlan::Spawn { count: drawn }
                    } else {
                        SpawnPlan::Nothing
                    }
                },
            },
        }
    }
}

/// Draws a number between `min` and `max`, both included, with
/// `rand::distributions::Uniform::new_inclusive` sampled from the thread's
/// generator. The source shows the result within the bounds (and a panic when
/// `min > max`); which number comes is left to chance and is not stated.
#[verifier::external_body]
fn draw_between(min: u32, max: u32) -> (r: u32)
    requires
        min <= max,
    ensures
        min <= r <= max,
{
    rand::distributions::Uniform::new_inclusive(min, max).sample(&mut rand::thread_rng())
}

/// Picks one number of `0..len` with `rand::seq::IteratorRandom::choose` and the
/// thread's generator: `None` exactly when the range is empty, as its
/// documentation says. Which number comes is left to chance and is not stated.
#[verifier::external_body]
pub(crate) fn pick_below(len: usize) -> (r: Option<usize>)
    ensures
        r is None <==> len == 0,
        r matches Some(i) ==> i < len,
{
    (0..len).choose(&mut rand::thread_rng())
}

/// The bounds of a kind that spawns by itself are in order.
pub open spec fn kind_bounds_ok(kind: SpawnKind) -> bool {
    match kind {
        SpawnKind::Automatic { min, max } => min <= max,
        SpawnKind::AutomaticWithRespawn { min, max, .. } => min <= max,
        _ => true,
    }
}

/// `drawn` lies within the bounds of `kind`, where it has any.
pub open spec fn drawn_fits(kind: SpawnKind, drawn: u32) -> bool {
    match kind {
        SpawnKind::Automatic { min, max } => min <= drawn <= max,
        SpawnKind::AutomaticWithRespawn { min, max, .. } => min <= drawn <= max,
        _ => true,
    }
}

impl ChunkSpawns {
    /// A player revealed chunk `chunk` of kind `kind` at time `now`
    /// (nanoseconds): draws how many enemies would come and decides, as
    /// [`ChunkSpawns::on_reveal`] does, for some number within the kind's bounds.
    pub fn reveal_chunk(&mut self, chunk: u32, kind: SpawnKind, now: u64) -> (r: SpawnPlan)
        requires
            kind_bounds_ok(kind),
        ensures
            exists|drawn: u32| #![trigger spawn_step(old(self)@, chunk, kind, now, drawn)]
                drawn_fits(kind, drawn) && (final(self)@, r) == spawn_step(old(self)@, chunk, kind, now, drawn),
    {
        let drawn: u32 = match kind {
            SpawnKind::Automatic { min, max } => draw_between(min, max),
            SpawnKind::AutomaticWithRespawn { min, max, .. } => draw_between(min, max),
            _ => 0,
        };
        let r = self.on_reveal(chunk, kind, now, drawn);
        assert(drawn_fits(kind, drawn) && (self@, r) == spawn_step(old(self)@, chunk, kind, now, drawn));
        r
    }
}

/// Which enemies a spawn brings and where: `point` is a position in the
/// chunk's list of spawn points (none when it has none, and the spawning
/// player's position is used), `enemies` positions in the map's enemy list.
pub struct SpawnChoice {
    pub point: Option<usize>,
    pub enemies: Vec<usize>,
}

/// The positions, in order, of the enemies of category `c`.
pub open spec fn positions_of(categories: Seq<u32>, c: u32) -> Seq<usize>
    decreases categories.len(),
{
    if categories.len() == 0 {
        Seq::empty()
    } else {
        let prev = positions_of(categories.drop_last(), c);
        if categories.last() == c {
            prev.push((categories.len() - 1) as usize)
        } else {
            prev
        }
    }
}

/// The draws of a spawn are in range: a spawn point exactly when the chunk has
/// some, a category among the map's enemies when it has any, and `count`
/// enemies each among those of the drawn category.
pub open spec fn draws_fit(
    categories: Seq<u32>,
    points: usize,
    count: u32,
    point_draw: Option<usize>,
    category_draw: usize,
    enemy_draws: Seq<usize>,
) -> bool {
    &&& (point_draw is None <==> points == 0)
    &&& (point_draw matches Some(p) ==> p < points)
    &&& categories.len() > 0 ==> {
        &&& category_draw < categories.len()
        &&& enemy_draws.len() == count
        &&& forall|k: int| 0 <= k < enemy_draws.len() ==> #[trigger] enemy_draws[k] < positions_of(
            categories,
            categories[category_draw as int],
        ).len()
    }
}

/// The spawn the draws give: the drawn point, and for a map with enemies,
/// for each enemy draw `d`, the `d`-th enemy of the drawn category.
pub open spec fn spawn_of_draws(
    categories: Seq<u32>,
    point_draw: Option<usize>,
    category_draw: usize,
    enemy_draws: Seq<usize>,
) -> (Option<usize>, Seq<usize>) {
    if categories.len() == 0 {
        (point_draw, Seq::empty())
    } else {
        let same = positions_of(categories, categories[category_draw as int]);
        (point_draw, enemy_draws.map_values(|d: usize| same[d as int]))
    }
}

proof fn lemma_positions_of(categories: Seq<u32>, c: u32)
    requires
        categories.len() <= usize::MAX,
    ensures
        forall|k: int| 0 <= k < positions_of(categories, c).len() ==> {
            &&& (#[trigger] positions_of(categories, c)[k]) < categories.len()
            &&& categories[positions_of(categories, c)[k] as int] == c
        },
        forall|i: int| 0 <= i < categories.len() && categories[i] == c ==> exists|k: int|
            0 <= k < positions_of(categories, c).len() && #[trigger] positions_of(categories, c)[k] == i,
    decreases categories.len(),
{
    if categories.len() > 0 {
        let prev = categories.drop_last();
        lemma_positions_of(prev, c);
        let ps = positions_of(categories, c);
        let pp = positions_of(prev, c);
        assert(ps == if categories.last() == c { pp.push((categories.len() - 1) as usize) } else { pp });
        assert forall|k: int| 0 <= k < ps.len() implies (#[trigger] ps[k]) < categories.len()
            && categories[ps[k] as int] == c by {
            if k < pp.len() {
                assert(ps[k] == pp[k]);
                assert(prev[pp[k] as int] == categories[pp[k] as int]);
            } else {
                assert(categories.last() == c);
                assert(ps[k] == categories.len() - 1);
            }
        }
        assert forall|i: int| 0 <= i < categories.len() && categories[i] == c implies exists|k: int|
            0 <= k < ps.len() && #[trigger] ps[k] == i by {
            if i == categories.len() - 1 {
                assert(categories.last() == c);
                assert(ps[pp.len() as int] == i);
            } else {
                assert(prev[i] == categories[i]);
                let k = choose|k: int| 0 <= k < pp.len() && #[trigger] pp[k] == i;
                assert(ps[k] == pp[k]);
            }
        }
    }
}

/// The enemies of a spawn from its draws (see [`spawn_of_draws`]).
pub fn spawn_from_draws(
    categories: &Vec<u32>,
    points: usize,
    count: u32,
    point_draw: Option<usize>,
    category_draw: usize,
    enemy_draws: &Vec<usize>,
) -> (r: SpawnChoice)
    requires
        draws_fit(categories@, points, count, point_draw, category_draw, enemy_draws@),
    ensures
        (r.point, r.enemies@) == spawn_of_draws(categories@, point_draw, category_draw, enemy_draws@),
{
    let mut enemies: Vec<usize> = Vec::new();
    if categories.len() == 0 {
        proof {
            assert(enemies@ =~= Seq::<usize>::empty());
        }
        return SpawnChoice { point: point_draw, enemies };
    }
    let category = categories[category_draw];
    let ghost all = categories@;
    let mut same: Vec<usize> = Vec::new();
    let mut i: usize = 0;
    while i < categories.len()
        invariant
            i <= categories@.len(),
            all == categories@,
            same@ == positions_of(all.take(i as int), category),
        decreases categories@.len() - i,
    {
        proof {
            assert(all.take(i + 1).drop_last() =~= all.take(i as int));
        }
        if categories[i] == category {
            same.push(i);
        }
        i = i + 1;
    }
    proof {
        assert(all.take(i as int) =~= all);
    }
    let ghost same_spec = positions_of(all, category);
    let mut k: usize = 0;
    while k < enemy_draws.len()
        invariant
            k <= enemy_draws@.len(),
            same@ == same_spec,
            same_spec == positions_of(categories@, categories@[category_draw as int]),
            forall|j: int| 0 <= j < enemy_draws@.len() ==> #[trigger] enemy_draws@[j] < same_spec.len(),
            enemies@ == enemy_draws@.take(k as int).map_values(|d: usize| same_spec[d as int]),
        decreases enemy_draws@.len() - k,
    {
        let d = enemy_draws[k];
        enemies.push(same[d]);
        k = k + 1;
        proof {
            assert(enemies@ =~= enemy_draws@.take(k as int).map_values(|d: usize| same_spec[d as int]));
        }
    }
    proof {
        assert(enemy_draws@.take(k as int) =~= enemy_draws@);
    }
    SpawnChoice { point: point_draw, enemies }
}

/// Chooses the enemies of a spawn of `count` enemies: a spawn point among the
/// chunk's `points`, one spawn category drawn from the map's enemies
/// (`categories` holds each enemy's category), then `count` enemies drawn
/// from those of that category. Whatever is drawn, the result is the spawn
/// those draws give (see [`spawn_of_draws`]); a map without enemies spawns none.
pub fn spawn_choices(categories: &Vec<u32>, points: usize, count: u32) -> (r: SpawnChoice)
    ensures
        exists|pd: Option<usize>, cd: usize, ed: Seq<usize>|
            #![trigger spawn_of_draws(categories@, pd, cd, ed)]
            draws_fit(categories@, points, count, pd, cd, ed) && (r.point, r.enemies@) == spawn_of_draws(
                categories@,
                pd,
                cd,
                ed,
            ),
        r.point is None <==> points == 0,
        r.point matches Some(p) ==> p < points,
        categories@.len() == 0 ==> r.enemies@.len() == 0,
        categories@.len() > 0 ==> r.enemies@.len() == count,
{
    let point = pick_below(points);
    let mut enemy_draws: Vec<usize> = Vec::new();
    let category_draw: usize = match pick_below(categories.len()) {
        Some(c) => c,
        None => 0,
    };
    if categories.len() > 0 {
        let ghost same = positions_of(categories@, categories@[category_draw as int]);
        let mut n: usize = 0;
        let mut same_len: usize = 0;
        let category = categories[category_draw];
        let mut i: usize = 0;
        while i < categories.len()
            invariant
                i <= categories@.len(),
                same_len == positions_of(categories@.take(i as int), category).len(),
                same_len <= i,
            decreases categories@.len() - i,
        {
            proof {
                assert(categories@.take(i + 1).drop_last() =~= categories@.take(i as int));
            }
            if categories[i] == category {
                same_len = same_len + 1;
            }
            i = i + 1;
        }
        proof {
            assert(categories@.take(i as int) =~= categories@);
            lemma_positions_of(categories@, category);
            assert(categories@[category_draw as int] == category);
        }
        let mut m: u32 = 0;
        while m < count
            invariant
                m <= count,
                enemy_draws@.len() == m,
                same_len == same.len(),
                same_len > 0,
                forall|j: int| 0 <= j < enemy_draws@.len() ==> #[trigger] enemy_draws@[j] < same.len(),
            decreases count - m,
        {
            let d: usize = match pick_below(same_len) {
                Some(d) => d,
                None => 0,
            };
            enemy_draws.push(d);
            m = m + 1;
        }
    }
    let r = spawn_from_draws(categories, points, count, point, category_draw, &enemy_draws);
    proof {
        if categories@.len() == 0 {
            assert(r.enemies@.len() == 0);
        }
    }
    r
}

proof fn lemma_first_record_exists(records: Seq<(u32, u64)>, chunk: u32, j: int)
    requires
        0 <= j < records.len(),
        records[j].0 == chunk,
    ensures
        exists|p: int| #[trigger] is_first_record(records, p, chunk),
    decreases j,
{
    if forall|k: int| 0 <= k < j ==> (#[trigger] records[k]).0 != chunk {
        assert(is_first_record(records, j, chunk));
    } else {
        let k = choose|k: int| 0 <= k < j && (#[trigger] records[k]).0 == chunk;
        lemma_first_record_exists(records, chunk, k);
    }
}

/// An automatic chunk spawns once: revealing it again spawns nothing.
pub proof fn law_automatic_spawns_once(records: Seq<(u32, u64)>, chunk: u32, min: u32, max: u32, t1: u64, t2: u64, d1: u32, d2: u32)
    ensures
        ({
            let kind = SpawnKind::Automatic { min, max };
            let (after, _) = spawn_step(records, chunk, kind, t1, d1);
            spawn_step(after, chunk, kind, t2, d2) == (after, SpawnPlan::Nothing)
        }),
{
    let kind = SpawnKind::Automatic { min, max };
    let (after, _) = spawn_step(records, chunk, kind, t1, d1);
    if spawned_at(records, chunk) is None {
        assert forall|k: int| 0 <= k < records.len() implies (#[trigger] records[k]).0 != chunk by {
            if records[k].0 == chunk {
                lemma_first_record_exists(records, chunk, k);
            }
        }
        assert(is_first_record(after, records.len() as int, chunk));
    } else {
        let p = choose|p: int| #[trigger] is_first_record(records, p, chunk);
        assert(is_first_record(after, p, chunk));
    }
}

// ---------------------------------------------------------------------------
// Enemies of a zone
// ---------------------------------------------------------------------------

/// `pos` is the first enemy with id `id`.
pub open spec fn is_first_enemy(enemies: Seq<(u32, EnemyStats)>, pos: int, id: u32) -> bool {
    &&& 0 <= pos < enemies.len()
    &&& enemies[pos].0 == id
    &&& forall|j: int| 0 <= j < pos ==> (#[trigger] enemies[j]).0 != id
}

/// The first enemy with id `id`, if any.
pub open spec fn find_enemy(enemies: Seq<(u32, EnemyStats)>, id: u32) -> Option<int> {
    if exists|p: int| #[trigger] is_first_enemy(enemies, p, id) {
        Some(choose|p: int| #[trigger] is_first_enemy(enemies, p, id))
    } else {
        None
    }
}

/// The enemies of a zone, each with its object id, in the order they spawned.
pub struct EnemyList {
    enemies: Vec<(u32, EnemyStats)>,
}

impl View for EnemyList {
    type V = Seq<(u32, EnemyStats)>;

    closed spec fn view(&self) -> Seq<(u32, EnemyStats)> {
        self.enemies@
    }
}

impl EnemyList {
    /// No enemies.
    pub fn new() -> (r: Self)
        ensures
            r@ == Seq::<(u32, EnemyStats)>::empty(),
    {
        EnemyList { enemies: Vec::new() }
    }

    /// The position of the first enemy with id `id`.
    pub fn find(&self, id: u32) -> (r: Option<usize>)
        ensures
            r matches Some(p) ==> find_enemy(self@, id) == Some(p as int),
            r is None ==> find_enemy(self@, id) is None,
    {
        let mut i: usize = 0;
        while i < self.enemies.len()
            invariant
                i <= self@.len(),
                forall|j: int| 0 <= j < i ==> (#[trigger] self@[j]).0 != id,
            decreases self@.len() - i,
        {
            if self.enemies[i].0 == id {
                proof {
                    assert(is_first_enemy(self@, i as int, id));
                    let c = choose|c: int| #[trigger] is_first_enemy(self@, c, id);
                    if c < i {
                        assert(self@[c].0 != id);
                    } else if i < c {
                        assert(self@[i as int].0 != id);
                    }
                }
                return Some(i);
            }
            i = i + 1;
        }
        proof {
            if exists|c: int| #[trigger] is_first_enemy(self@, c, id) {
                let c = choose|c: int| #[trigger] is_first_enemy(self@, c, id);
                assert(self@[c].0 != id);
            }
        }
        None
    }

    /// Spawns an enemy: it gets the id after `max_id`, which becomes the new
    /// largest id, and joins the list. Returns its id.
    pub fn spawn(&mut self, max_id: &mut u32, stats: EnemyStats) -> (id: u32)
        requires
            *old(max_id) < u32::MAX,
        ensures
            id == *old(max_id) + 1,
            *final(max_id) == id,
            final(self)@ == old(self)@.push((id, stats)),
    {
        let id = *max_id + 1;
        *max_id = id;
        self.enemies.push((id, stats));
        id
    }

    /// Enemy `id` takes `dmg` damage; a fallen enemy leaves the list, the
    /// others keeping their order. `None` when there is no such enemy.
    pub fn hit(&mut self, id: u32, dmg: u32) -> (r: Option<HitOutcome>)
        ensures
            find_enemy(old(self)@, id) is None ==> r is None && final(self)@ == old(self)@,
            find_enemy(old(self)@, id) matches Some(p) ==> ({
                let e = old(self)@[p].1;
                let hp = sat_sub(e.hp, dmg);
                &&& r == Some(HitOutcome {
                    damage: dmg,
                    new_hp: hp,
                    killed: hp == 0,
                    exp_amount: if hp == 0 { e.exp } else { 0 },
                })
                &&& hp == 0 ==> final(self)@ == old(self)@.remove(p)
                &&& hp != 0 ==> final(self)@ == old(self)@.update(p, (id, EnemyStats { hp, ..e }))
            }),
    {
        match self.find(id) {
            None => None,
            Some(p) => {
                let (eid, mut e) = self.enemies[p];
                let outcome = e.take_damage(dmg);
                if outcome.killed {
                    self.enemies.remove(p);
                } else {
                    self.enemies.set(p, (eid, e));
                }
                Some(outcome)
            },
        }
    }
}

/// Who hits whom in a damage report.
#[derive(Clone, Copy, Debug, PartialEq, Eq, Structural)]
pub enum DamageRoute {
    /// A player hits an enemy.
    PlayerHitsEnemy,
    /// An enemy hits a player.
    EnemyHitsPlayer,
    /// Anything else is ignored.
    Ignore,
}

/// How a damage report is handled, from whether the one who hit and the one
/// hit are players or objects.
pub fn damage_route(inflicter_is_player: bool, inflicter_is_object: bool, target_is_player: bool, target_is_object: bool) -> (r: DamageRoute)
    ensures
        r == if inflicter_is_player && target_is_object {
            DamageRoute::PlayerHitsEnemy
        } else if inflicter_is_object && target_is_player {
            DamageRoute::EnemyHitsPlayer
        } else {
            DamageRoute::Ignore
        },
{
    if inflicter_is_player && target_is_object {
        DamageRoute::PlayerHitsEnemy
    } else if inflicter_is_object && target_is_player {
        DamageRoute::EnemyHitsPlayer
    } else {
        DamageRoute::Ignore
    }
}

// ---------------------------------------------------------------------------
// Which zone of a map each player is in
// ---------------------------------------------------------------------------

/// `pos` is the first entry of player `id`.
pub open spec fn is_first_entry(entries: Seq<(u32, usize)>, pos: int, id: u32) -> bool {
    &&& 0 <= pos < entries.len()
    &&& entries[pos].0 == id
    &&& forall|j: int| 0 <= j < pos ==> (#[trigger] entries[j]).0 != id
}

/// Whether player `id` has an entry.
pub open spec fn has_entry(entries: Seq<(u32, usize)>, id: u32) -> bool {
    exists|j: int| 0 <= j < entries.len() && (#[trigger] entries[j]).0 == id
}

/// The zone of player `id`: that of its first entry.
pub open spec fn zone_of(entries: Seq<(u32, usize)>, id: u32) -> Option<usize> {
    if has_entry(entries, id) {
        Some(entries[choose|p: int| #[trigger] is_first_entry(entries, p, id)].1)
    } else {
        None
    }
}

proof fn lemma_first_entry(entries: Seq<(u32, usize)>, id: u32, j: int)
    requires
        0 <= j < entries.len(),
        entries[j].0 == id,
    ensures
        exists|p: int| #[trigger] is_first_entry(entries, p, id),
    decreases j,
{
    if forall|k: int| 0 <= k < j ==> (#[trigger] entries[k]).0 != id {
        assert(is_first_entry(entries, j, id));
    } else {
        let k = choose|k: int| 0 <= k < j && (#[trigger] entries[k]).0 == id;
        lemma_first_entry(entries, id, k);
    }
}

proof fn lemma_first_entry_unique(entries: Seq<(u32, usize)>, id: u32, a: int, b: int)
    requires
        is_first_entry(entries, a, id),
        is_first_entry(entries, b, id),
    ensures
        a == b,
{
    if a < b {
        assert(entries[a].0 != id);
    } else if b < a {
        assert(entries[b].0 != id);
    }
}

/// The players of a map, each with the position of the zone it is in, in
/// the order they arrived.
pub struct PlayerCache {
    entries: Vec<(u32, usize)>,
}

impl View for PlayerCache {
    type V = Seq<(u32, usize)>;

    closed spec fn view(&self) -> Seq<(u32, usize)> {
        self.entries@
    }
}

impl PlayerCache {
    /// No players.
    pub fn new() -> (r: Self)
        ensures
            r@ == Seq::<(u32, usize)>::empty(),
    {
        PlayerCache { entries: Vec::new() }
    }

    fn position(&self, id: u32) -> (r: Option<usize>)
        ensures
            r matches Some(p) ==> is_first_entry(self@, p as int, id),
            r is None ==> !has_entry(self@, id),
    {
        let mut i: usize = 0;
        while i < self.entries.len()
            invariant
                i <= self@.len(),
                forall|j: int| 0 <= j < i ==> (#[trigger] self@[j]).0 != id,
            decreases self@.len() - i,
        {
            if self.entries[i].0 == id {
                return Some(i);
            }
            i = i + 1;
        }
        None
    }

    /// Records that player `id` entered the zone at position `zone_pos`.
    pub fn add(&mut self, id: u32, zone_pos: usize)
        ensures
            final(self)@ == old(self)@.push((id, zone_pos)),
    {
        self.entries.push((id, zone_pos));
    }

    /// The zone position of player `id`, if it is in the map.
    pub fn find_player(&self, id: u32) -> (r: Option<usize>)
        ensures
            r == zone_of(self@, id),
    {
        match self.position(id) {
            Some(p) => {
                proof {
                    let c = choose|c: int| #[trigger] is_first_entry(self@, c, id);
                    lemma_first_entry(self@, id, p as int);
                    lemma_first_entry_unique(self@, id, c, p as int);
                }
                Some(self.entries[p].1)
            },
            None => None,
        }
    }

    /// Player `id` leaves the map: its first entry goes, the others keeping
    /// their order. Returns the zone position it was in.
    pub fn remove_player(&mut self, id: u32) -> (r: Option<usize>)
        ensures
            r == zone_of(old(self)@, id),
            r is None ==> final(self)@ == old(self)@,
            r is Some ==> exists|p: int| #[trigger] is_first_entry(old(self)@, p, id) && final(self)@
                == old(self)@.remove(p),
    {
        match self.position(id) {
            Some(p) => {
                proof {
                    let c = choose|c: int| #[trigger] is_first_entry(old(self)@, c, id);
                    lemma_first_entry(old(self)@, id, p as int);
                    lemma_first_entry_unique(old(self)@, id, c, p as int);
                }
                let (_, zone_pos) = self.entries.remove(p);
                Some(zone_pos)
            },
            None => None,
        }
    }
}

/// A player that enters a map where it is not yet is then found in the zone
/// it entered, and leaving gives back the map as it was.
pub proof fn law_enter_then_find(entries: Seq<(u32, usize)>, id: u32, zone_pos: usize)
    requires
        !has_entry(entries, id),
    ensures
        zone_of(entries.push((id, zone_pos)), id) == Some(zone_pos),
        is_first_entry(entries.push((id, zone_pos)), entries.len() as int, id),
        entries.push((id, zone_pos)).remove(entries.len() as int) == entries,
{
    let after = entries.push((id, zone_pos));
    let n = entries.len() as int;
    assert forall|j: int| 0 <= j < n implies (#[trigger] after[j]).0 != id by {
        assert(after[j] == entries[j]);
        if entries[j].0 == id {
            assert(has_entry(entries, id));
        }
    }
    assert(is_first_entry(after, n, id));
    assert(has_entry(after, id));
    let c = choose|c: int| #[trigger] is_first_entry(after, c, id);
    lemma_first_entry_unique(after, id, c, n);
    assert(after.remove(n) =~= entries);
}

/// The position of the first zone whose id is `zone_id`.
pub fn zone_position(zone_ids: &Vec<u32>, zone_id: u32) -> (r: Option<usize>)
    ensures
        r matches Some(p) ==> p < zone_ids@.len() && zone_ids@[p as int] == zone_id && forall|j: int|
            0 <= j < p ==> zone_ids@[j] != zone_id,
        r is None ==> !zone_ids@.contains(zone_id),
{
    let mut i: usize = 0;
    while i < zone_ids.len()
        invariant
            i <= zone_ids@.len(),
            forall|j: int| 0 <= j < i ==> zone_ids@[j] != zone_id,
        decreases zone_ids@.len() - i,
    {
        if zone_ids[i] == zone_id {
            return Some(i);
        }
        i = i + 1;
    }
    None
}


/// `pos` is the first placed thing, given as `(zone id, object id)`, that stands in
/// zone `zone_id` and carries the object id `object_id`.
pub open spec fn is_first_placed(placed: Seq<(u32, u32)>, pos: int, zone_id: u32, object_id: u32) -> bool {
    &&& 0 <= pos < placed.len()
    &&& placed[pos] == (zone_id, object_id)
    &&& forall|j: int| 0 <= j < pos ==> #[trigger] placed[j] != (zone_id, object_id)
}

/// What an interaction in a zone is aimed at: an object or an NPC, by its position
/// in the map's list of objects or of NPCs.
#[derive(Clone, Copy, Debug, PartialEq, Eq, Structural)]
pub enum InteractTarget {
    Object(usize),
    Npc(usize),
}

fn first_placed(placed: &Vec<(u32, u32)>, zone_id: u32, object_id: u32) -> (r: Option<usize>)
    ensures
        r matches Some(p) ==> is_first_placed(placed@, p as int, zone_id, object_id),
        r is None ==> !placed@.contains((zone_id, object_id)),
{
    let mut i: usize = 0;
    while i < placed.len()
        invariant
            i <= placed@.len(),
            forall|j: int| 0 <= j < i ==> #[trigger] placed@[j] != (zone_id, object_id),
        decreases placed@.len() - i,
    {
        let (z, o) = placed[i];
        if z == zone_id && o == object_id {
            return Some(i);
        }
        i = i + 1;
    }
    None
}

/// Finds what an interaction with `object_id` in zone `zone_id` is aimed at: the first
/// object of that zone with that id, else the first NPC of that zone with that id.
pub fn interaction_target(objects: &Vec<(u32, u32)>, npcs: &Vec<(u32, u32)>, zone_id: u32, object_id: u32) -> (r: Option<InteractTarget>)
    ensures
        r matches Some(InteractTarget::Object(p)) ==> is_first_placed(objects@, p as int, zone_id, object_id),
        r matches Some(InteractTarget::Npc(p)) ==> !objects@.contains((zone_id, object_id))
            && is_first_placed(npcs@, p as int, zone_id, object_id),
        r is None <==> !objects@.contains((zone_id, object_id)) && !npcs@.contains((zone_id, object_id)),
{
    match first_placed(objects, zone_id, object_id) {
        Some(p) => {
            assert(objects@.contains((zone_id, object_id))) by {
                assert(objects@[p as int] == (zone_id, object_id));
            }
            Some(InteractTarget::Object(p))
        },
        None => match first_placed(npcs, zone_id, object_id) {
            Some(p) => {
                assert(npcs@.contains((zone_id, object_id))) by {
                    assert(npcs@[p as int] == (zone_id, object_id));
                }
                Some(InteractTarget::Npc(p))
            },
            None => None,
        },
    }
}

} // verus!
