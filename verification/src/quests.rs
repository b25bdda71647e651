use vstd::prelude::*;
use crate::error::Error;
use crate::quest_type::{QuestType, quest_slot, quest_flag_bit, QUEST_SLOTS, law_slots_distinct};

verus! {

/// What the quest logic reads of a quest definition.
#[derive(Clone, Copy, Debug)]
pub struct QuestInfo {
    /// Id of the quest's name; a quest is offered when this id is unlocked.
    pub name_id: u32,
    /// Category of the quest.
    pub quest_type: QuestType,
    /// Id of the quest object the client accepts.
    pub obj_id: u32,
    /// Enemy level of each of the eight difficulties.
    pub monster_levels: [u8; 8],
    /// Whether accepting the quest moves the party at once.
    pub immediate_move: bool,
}

/// The quests a ship offers, in the order they were loaded.
pub struct Quests {
    quests: Vec<QuestInfo>,
}

impl View for Quests {
    type V = Seq<QuestInfo>;

    closed spec fn view(&self) -> Seq<QuestInfo> {
        self.quests@
    }
}

/// The per-category counts and type masks of an available-quests answer.
pub struct AvailableQuests {
    /// Number of offered quests per counter (see [`quest_slot`]).
    pub counts: Vec<u16>,
    /// Bit mask of the offered categories (see [`quest_flag_bit`]).
    pub available_types: u128,
    /// A copy of `available_types`, which the client reads a second time.
    pub repeated_types: u128,
}

/// Whether quest `q` is offered to a player with the unlocked name ids `unlocked`.
pub open spec fn is_unlocked(q: QuestInfo, unlocked: Seq<u32>) -> bool {
    unlocked.contains(q.name_id)
}

/// How many quests of `qs` that are unlocked are counted in counter `slot`.
pub open spec fn count_slot(qs: Seq<QuestInfo>, unlocked: Seq<u32>, slot: nat) -> nat
    decreases qs.len(),
{
    if qs.len() == 0 {
        0
    } else {
        count_slot(qs.drop_last(), unlocked, slot) + if is_unlocked(qs.last(), unlocked)
            && quest_slot(qs.last().quest_type) == Some(slot) {
            1nat
        } else {
            0nat
        }
    }
}

/// The mask bit of category `t`.
pub open spec fn type_bit(t: QuestType) -> u128 {
    1u128 << (quest_flag_bit(t) as u8)
}

/// The union of the mask bits of the unlocked quests of `qs`.
pub open spec fn type_mask(qs: Seq<QuestInfo>, unlocked: Seq<u32>) -> u128
    decreases qs.len(),
{
    if qs.len() == 0 {
        0
    } else if is_unlocked(qs.last(), unlocked) {
        type_mask(qs.drop_last(), unlocked) | type_bit(qs.last().quest_type)
    } else {
        type_mask(qs.drop_last(), unlocked)
    }
}

/// The positions, in order, of the unlocked quests of category `cat`.
pub open spec fn category_positions(qs: Seq<QuestInfo>, unlocked: Seq<u32>, cat: QuestType) -> Seq<
    usize,
>
    decreases qs.len(),
{
    if qs.len() == 0 {
        Seq::empty()
    } else {
        let prev = category_positions(qs.drop_last(), unlocked, cat);
        if is_unlocked(qs.last(), unlocked) && qs.last().quest_type == cat {
            prev.push((qs.len() - 1) as usize)
        } else {
            prev
        }
    }
}

/// `pos` is the first position of `qs` whose quest object is `id`.
pub open spec fn is_first_obj(qs: Seq<QuestInfo>, pos: int, id: u32) -> bool {
    &&& 0 <= pos < qs.len()
    &&& qs[pos].obj_id == id
    &&& forall|j: int| 0 <= j < pos ==> (#[trigger] qs[j]).obj_id != id
}

/// `pos` is the first position of `qs` whose name id is `id`.
pub open spec fn is_first_name(qs: Seq<QuestInfo>, pos: int, id: u32) -> bool {
    &&& 0 <= pos < qs.len()
    &&& qs[pos].name_id == id
    &&& forall|j: int| 0 <= j < pos ==> (#[trigger] qs[j]).name_id != id
}

/// Whether `x` occurs in `s`.
pub fn contains_id(s: &[u32], x: u32) -> (r: bool)
    ensures
        r == s@.contains(x),
{
    let mut i: usize = 0;
    while i < s.len()
        invariant
            i <= s.len(),
            forall|j: int| 0 <= j < i ==> s@[j] != x,
        decreases s.len() - i,
    {
        if s[i] == x {
            assert(s@[i as int] == x);
            return true;
        }
        i = i + 1;
    }
    false
}

proof fn lemma_count_slot_bounded(qs: Seq<QuestInfo>, unlocked: Seq<u32>, slot: nat)
    ensures
        count_slot(qs, unlocked, slot) <= qs.len(),
    decreases qs.len(),
{
    if qs.len() > 0 {
        lemma_count_slot_bounded(qs.drop_last(), unlocked, slot);
    }
}

proof fn lemma_count_slot_prefix(qs: Seq<QuestInfo>, unlocked: Seq<u32>, slot: nat, i: int)
    requires
        0 <= i <= qs.len(),
    ensures
        count_slot(qs.take(i), unlocked, slot) <= count_slot(qs, unlocked, slot),
    decreases qs.len(),
{
    if i == qs.len() {
        assert(qs.take(i) =~= qs);
    } else {
        assert(qs.drop_last().take(i) =~= qs.take(i));
        lemma_count_slot_prefix(qs.drop_last(), unlocked, slot, i);
    }
}

/// How many unlocked quests of `qs` are of category `t`.
pub open spec fn count_type(qs: Seq<QuestInfo>, unlocked: Seq<u32>, t: QuestType) -> nat
    decreases qs.len(),
{
    if qs.len() == 0 {
        0
    } else {
        count_type(qs.drop_last(), unlocked, t) + if is_unlocked(qs.last(), unlocked) && qs.last().quest_type == t {
            1nat
        } else {
            0nat
        }
    }
}

/// Each counter of the available-quests answer counts exactly the unlocked
/// quests of the one category it belongs to (so a story quest is counted in
/// the story counter and nowhere else).
pub proof fn law_counter_counts_its_category(qs: Seq<QuestInfo>, unlocked: Seq<u32>, t: QuestType)
    ensures
        quest_slot(t) matches Some(s) ==> count_slot(qs, unlocked, s) == count_type(qs, unlocked, t),
    decreases qs.len(),
{
    if qs.len() > 0 {
        law_counter_counts_its_category(qs.drop_last(), unlocked, t);
        law_slots_distinct(qs.last().quest_type, t);
    }
}

proof fn lemma_or_bit(m: u128, c: u8, b: u8)
    requires
        c < 128,
        b < 128,
    ensures
        (((m | (1u128 << c)) >> b) & 1 == 1) <==> (((m >> b) & 1 == 1) || b == c),
{
    assert((((m | (1u128 << c)) >> b) & 1 == 1) <==> (((m >> b) & 1 == 1) || b == c))
        by (bit_vector)
        requires
            c < 128,
            b < 128,
    ;
}

proof fn lemma_flag_bit_small(t: QuestType)
    ensures
        quest_flag_bit(t) < 128,
{
}

/// The available-types mask marks exactly the categories of the offered quests:
/// bit `b` is set if and only if some unlocked quest's category has mask bit `b`.
pub proof fn law_mask_marks_offered_categories(qs: Seq<QuestInfo>, unlocked: Seq<u32>, b: u8)
    requires
        b < 128,
    ensures
        ((type_mask(qs, unlocked) >> b) & 1 == 1) <==> exists|i: int|
            0 <= i < qs.len() && is_unlocked(#[trigger] qs[i], unlocked) && quest_flag_bit(
                qs[i].quest_type,
            ) == b,
    decreases qs.len(),
{
    if qs.len() == 0 {
        assert((0u128 >> b) & 1 == 0) by (bit_vector);
    } else {
        let prev = qs.drop_last();
        law_mask_marks_offered_categories(prev, unlocked, b);
        let last = qs.last();
        lemma_flag_bit_small(last.quest_type);
        if is_unlocked(last, unlocked) {
            lemma_or_bit(type_mask(prev, unlocked), quest_flag_bit(last.quest_type) as u8, b);
        }
        if exists|i: int|
            0 <= i < qs.len() && is_unlocked(#[trigger] qs[i], unlocked) && quest_flag_bit(
                qs[i].quest_type,
            ) == b {
            let i = choose|i: int|
                0 <= i < qs.len() && is_unlocked(#[trigger] qs[i], unlocked) && quest_flag_bit(
                    qs[i].quest_type,
                ) == b;
            if i < qs.len() - 1 {
                assert(prev[i] == qs[i]);
            }
        }
        if exists|i: int|
            0 <= i < prev.len() && is_unlocked(#[trigger] prev[i], unlocked) && quest_flag_bit(
                prev[i].quest_type,
            ) == b {
            let i = choose|i: int|
                0 <= i < prev.len() && is_unlocked(#[trigger] prev[i], unlocked) && quest_flag_bit(
                    prev[i].quest_type,
                ) == b;
            assert(qs[i] == prev[i]);
        }
    }
}

impl Quests {
    /// Creates the quest list from the loaded definitions.
    pub fn load(quests: Vec<QuestInfo>) -> (r: Self)
        ensures
            r@ == quests@,
    {
        Quests { quests }
    }

    /// The answer to an available-quests request: for every counter, how many
    /// offered quests it counts, and the mask of the offered categories.
    pub fn get_availiable(&self, unlocked: &[u32]) -> (r: AvailableQuests)
        requires
            forall|s: int| 0 <= s < QUEST_SLOTS ==> #[trigger] count_slot(self@, unlocked@, s as nat) <= u16::MAX,
        ensures
            r.counts@.len() == QUEST_SLOTS,
            forall|s: int| 0 <= s < QUEST_SLOTS ==> #[trigger] r.counts@[s] == count_slot(
                self@,
                unlocked@,
                s as nat,
            ),
            r.available_types == type_mask(self@, unlocked@),
            r.repeated_types == r.available_types,
    {
        let mut counts: Vec<u16> = Vec::new();
        while counts.len() < QUEST_SLOTS
            invariant
                counts@.len() <= QUEST_SLOTS,
                forall|s: int| 0 <= s < counts@.len() ==> counts@[s] == 0,
            decreases QUEST_SLOTS - counts@.len(),
        {
            counts.push(0);
        }
        let mut mask: u128 = 0;
        let n = self.quests.len();
        let mut i: usize = 0;
        proof {
            assert forall|s: int| 0 <= s < QUEST_SLOTS implies counts@[s] == count_slot(
                self@.take(0),
                unlocked@,
                s as nat,
            ) by {}
        }
        while i < n
            invariant
                n == self@.len(),
                forall|s: int| 0 <= s < QUEST_SLOTS ==> #[trigger] count_slot(self@, unlocked@, s as nat) <= u16::MAX,
                i <= n,
                counts@.len() == QUEST_SLOTS,
                forall|s: int| 0 <= s < QUEST_SLOTS ==> #[trigger] counts@[s] == count_slot(
                    self@.take(i as int),
                    unlocked@,
                    s as nat,
                ),
                mask == type_mask(self@.take(i as int), unlocked@),
            decreases n - i,
        {
            let q = self.quests[i];
            let ghost prev = self@.take(i as int);
            let ghost next = self@.take(i + 1);
            proof {
                assert(next.drop_last() =~= prev);
                assert(next.last() == q);
            }
            if contains_id(unlocked, q.name_id) {
                match q.quest_type.slot() {
                    Some(s) => {
                        let su = s as usize;
                        proof {
                            let si: int = s as int;
                            assert(count_slot(self@, unlocked@, si as nat) <= u16::MAX);
                            assert(si as nat == s as nat);
                            lemma_count_slot_prefix(self@, unlocked@, s as nat, i + 1);
                        }
                        let c = counts[su];
                        counts.set(su, c + 1);
                    },
                    None => {},
                }
                mask = mask | (1u128 << q.quest_type.flag_bit());
            }
            i = i + 1;
        }
        proof {
            assert(self@.take(n as int) =~= self@);
        }
        AvailableQuests { counts, available_types: mask, repeated_types: mask }
    }

    /// The positions of the offered quests of category `category`, in order.
    pub fn get_category(&self, category: QuestType, unlocked: &[u32]) -> (r: Vec<usize>)
        ensures
            r@ == category_positions(self@, unlocked@, category),
    {
        let mut out: Vec<usize> = Vec::new();
        let n = self.quests.len();
        let mut i: usize = 0;
        while i < n
            invariant
                n == self@.len(),
                i <= n,
                out@ == category_positions(self@.take(i as int), unlocked@, category),
            decreases n - i,
        {
            let q = self.quests[i];
            proof {
                assert(self@.take(i + 1).drop_last() =~= self@.take(i as int));
            }
            if contains_id(unlocked, q.name_id) && q.quest_type == category {
                out.push(i);
            }
            i = i + 1;
        }
        proof {
            assert(self@.take(n as int) =~= self@);
        }
        out
    }

    /// The position of the first quest whose quest object is `id`.
    pub fn find_by_obj(&self, id: u32) -> (r: Option<usize>)
        ensures
            r matches Some(p) ==> is_first_obj(self@, p as int, id),
            r is None ==> forall|j: int| 0 <= j < self@.len() ==> (#[trigger] self@[j]).obj_id != id,
    {
        let mut i: usize = 0;
        while i < self.quests.len()
            invariant
                i <= self@.len(),
                forall|j: int| 0 <= j < i ==> (#[trigger] self@[j]).obj_id != id,
            decreases self@.len() - i,
        {
            if self.quests[i].obj_id == id {
                return Some(i);
            }
            i = i + 1;
        }
        None
    }

    /// The position of the first quest whose name id is `id`.
    pub fn get_quest_by_nameid(&self, id: u32) -> (r: Option<usize>)
        ensures
            r matches Some(p) ==> is_first_name(self@, p as int, id),
            r is None ==> forall|j: int| 0 <= j < self@.len() ==> (#[trigger] self@[j]).name_id != id,
    {
        let mut i: usize = 0;
        while i < self.quests.len()
            invariant
                i <= self@.len(),
                forall|j: int| 0 <= j < i ==> (#[trigger] self@[j]).name_id != id,
            decreases self@.len() - i,
        {
            if self.quests[i].name_id == id {
                return Some(i);
            }
            i = i + 1;
        }
        None
    }

    /// The quest at position `pos`.
    pub fn get(&self, pos: usize) -> (r: QuestInfo)
        requires
            pos < self@.len(),
        ensures
            r == self@[pos as int],
    {
        self.quests[pos]
    }

    /// The difficulties of the quest whose quest object is `id`: its position,
    /// through which the caller reads its difficulty table.
    pub fn get_diff(&self, id: u32) -> (r: Option<usize>)
        ensures
            r matches Some(p) ==> is_first_obj(self@, p as int, id),
            r is None ==> forall|j: int| 0 <= j < self@.len() ==> (#[trigger] self@[j]).obj_id != id,
    {
        self.find_by_obj(id)
    }

    /// Accepting quest object `obj_id` at difficulty `diff`: the quest's
    /// position and the enemy level of that difficulty. Fails when no quest has
    /// that object, or when the difficulty is 8 or more.
    pub fn get_quest(&self, obj_id: u32, diff: u16) -> (r: Result<(usize, u8), Error>)
        ensures
            (forall|j: int| 0 <= j < self@.len() ==> (#[trigger] self@[j]).obj_id != obj_id) ==> (r matches Err(
                Error::InvalidInput(m),
            ) && m == "get_quest"),
            (exists|j: int| 0 <= j < self@.len() && (#[trigger] self@[j]).obj_id == obj_id) && diff >= 8 ==> (
            r matches Err(Error::InvalidInput(m)) && m == "get_quest"),
            (exists|j: int| 0 <= j < self@.len() && (#[trigger] self@[j]).obj_id == obj_id) && diff < 8 ==> (
            r matches Ok((rp, lvl)) && is_first_obj(self@, rp as int, obj_id) && lvl == self@[rp as int].monster_levels[diff as int]),
    {
        let found = self.find_by_obj(obj_id);
        match found {
            None => Err(Error::InvalidInput("get_quest")),
            Some(p) => {
                if diff >= 8 {
                    return Err(Error::InvalidInput("get_quest"));
                }
                let q = self.quests[p];
                Ok((p, q.monster_levels[diff as usize]))
            },
        }
    }

    /// Accepting a story quest by its name id: the quest's position and the
    /// enemy level of its first difficulty. Fails when no quest has that name.
    pub fn get_story_quest(&self, name_id: u32) -> (r: Result<(usize, u8), Error>)
        ensures
            (forall|j: int| 0 <= j < self@.len() ==> (#[trigger] self@[j]).name_id != name_id)
                <==> r is Err,
            r matches Err(Error::InvalidInput(m)) ==> m == "get_quest",
            r matches Ok((p, lvl)) ==> (is_first_name(self@, p as int, name_id)
                && lvl == self@[p as int].monster_levels[0]),
    {
        match self.get_quest_by_nameid(name_id) {
            None => Err(Error::InvalidInput("get_quest")),
            Some(p) => {
                let q = self.quests[p];
                proof {
                    assert(is_first_name(self@, p as int, name_id));
                    assert(self@[p as int].name_id == name_id);
                }
                Ok((p, q.monster_levels[0]))
            },
        }
    }
}

/// Unlocking quests `ids` in order: each one not yet unlocked is added to the
/// unlocked list and to the pending notifications, both at the end.
pub open spec fn unlock_all(unlocked: Seq<u32>, notif: Seq<u32>, ids: Seq<u32>) -> (Seq<u32>, Seq<u32>)
    decreases ids.len(),
{
    if ids.len() == 0 {
        (unlocked, notif)
    } else {
        let (u, n) = unlock_all(unlocked, notif, ids.drop_last());
        if u.contains(ids.last()) {
            (u, n)
        } else {
            (u.push(ids.last()), n.push(ids.last()))
        }
    }
}

/// Unlocks quest `name_id` for a character: when it is not unlocked yet, it
/// is added to the unlocked quests and to the pending notifications;
/// otherwise nothing changes.
pub fn unlock_quest(unlocked: &mut Vec<u32>, notif: &mut Vec<u32>, name_id: u32)
    ensures
        old(unlocked)@.contains(name_id) ==> final(unlocked)@ == old(unlocked)@ && final(notif)@ == old(notif)@,
        !old(unlocked)@.contains(name_id) ==> final(unlocked)@ == old(unlocked)@.push(name_id)
            && final(notif)@ == old(notif)@.push(name_id),
{
    if !contains_id(unlocked.as_slice(), name_id) {
        unlocked.push(name_id);
        notif.push(name_id);
    }
}

/// Unlocks quests `ids` in order (see [`unlock_all`]).
pub fn unlock_quests(unlocked: &mut Vec<u32>, notif: &mut Vec<u32>, ids: &Vec<u32>)
    ensures
        (final(unlocked)@, final(notif)@) == unlock_all(old(unlocked)@, old(notif)@, ids@),
{
    let mut i: usize = 0;
    while i < ids.len()
        invariant
            i <= ids@.len(),
            (unlocked@, notif@) == unlock_all(old(unlocked)@, old(notif)@, ids@.take(i as int)),
        decreases ids@.len() - i,
    {
        proof {
            assert(ids@.take(i + 1).drop_last() =~= ids@.take(i as int));
        }
        unlock_quest(unlocked, notif, ids[i]);
        i = i + 1;
    }
    proof {
        assert(ids@.take(i as int) =~= ids@);
    }
}

/// The most unlock notifications one packet carries.
pub const MAX_UNLOCK_NOTIFICATIONS: usize = 51;

/// The position of the first quest with name id `id`, if any.
pub open spec fn find_name(qs: Seq<QuestInfo>, id: u32) -> Option<usize> {
    if exists|p: int| #[trigger] is_first_name(qs, p, id) {
        Some((choose|p: int| #[trigger] is_first_name(qs, p, id)) as usize)
    } else {
        None
    }
}

/// The positions of the quests named by `ids`, in order, skipping names that
/// no quest has.
pub open spec fn named_positions(qs: Seq<QuestInfo>, ids: Seq<u32>) -> Seq<usize>
    decreases ids.len(),
{
    if ids.len() == 0 {
        Seq::empty()
    } else {
        let prev = named_positions(qs, ids.drop_last());
        match find_name(qs, ids.last()) {
            Some(p) => prev.push(p),
            None => prev,
        }
    }
}

impl Quests {
    fn find_name_exec(&self, id: u32) -> (r: Option<usize>)
        ensures
            r == find_name(self@, id),
    {
        let r = self.get_quest_by_nameid(id);
        proof {
            match r {
                Some(p) => {
                    let c = choose|c: int| #[trigger] is_first_name(self@, c, id);
                    if c < p {
                        assert(self@[c].name_id != id);
                    } else if p < c {
                        assert(self@[p as int].name_id != id);
                    }
                },
                None => {
                    if exists|c: int| #[trigger] is_first_name(self@, c, id) {
                        let c = choose|c: int| #[trigger] is_first_name(self@, c, id);
                        assert(self@[c].name_id != id);
                    }
                },
            }
        }
        r
    }

    /// Sends the queued unlock notifications: at most 51 are taken from the
    /// front of the queue, and the quests they name (those that exist) are
    /// listed, in order.
    pub fn take_unlock_notifications(&self, queue: &mut Vec<u32>) -> (r: Vec<usize>)
        ensures
            ({
                let n = if old(queue)@.len() <= MAX_UNLOCK_NOTIFICATIONS {
                    old(queue)@.len() as int
                } else {
                    MAX_UNLOCK_NOTIFICATIONS as int
                };
                &&& final(queue)@ == old(queue)@.skip(n)
                &&& r@ == named_positions(self@, old(queue)@.take(n))
            }),
    {
        let n = if queue.len() <= MAX_UNLOCK_NOTIFICATIONS {
            queue.len()
        } else {
            MAX_UNLOCK_NOTIFICATIONS
        };
        let ghost q = queue@;
        let mut out: Vec<usize> = Vec::new();
        let mut i: usize = 0;
        while i < n
            invariant
                i <= n,
                n <= q.len(),
                queue@ == q,
                out@ == named_positions(self@, q.take(i as int)),
            decreases n - i,
        {
            proof {
                assert(q.take(i + 1).drop_last() =~= q.take(i as int));
            }
            match self.find_name_exec(queue[i]) {
                Some(p) => out.push(p),
                None => {},
            }
            i = i + 1;
        }
        let rest = queue.split_off(n);
        *queue = rest;
        proof {
            assert(queue@ =~= q.skip(n as int));
        }
        out
    }
}

} // verus!
