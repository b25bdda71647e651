use vstd::prelude::*;
use crate::text::copy_chars;

verus! {

// ---------------------------------------------------------------------------
// Reading a packet capture into quest and map data
// ---------------------------------------------------------------------------

/// A packet of a capture, as far as collecting quest and map data reads it.
pub enum CaptureEvent {
    /// A quest is listed, by its quest object id.
    QuestListed(u32),
    /// The difficulties of a quest, by its quest object id.
    QuestDifficulty(u32),
    /// The player accepted quest `quest_id` at difficulty `diff`.
    AcceptQuest { quest_id: u32, diff: u16 },
    /// An enemy named `name` spawned.
    EnemySpawn(Vec<char>),
    /// A new map is loaded; `map_id` is its first zone.
    LoadLevel(u32),
    /// The player moved to zone `map_id` of the map.
    MapTransfer(u32),
    /// An object, NPC, event or transporter with object id `id` spawned.
    ObjectSpawn(u32),
    NpcSpawn(u32),
    EventSpawn(u32),
    TransporterSpawn(u32),
    /// The client finished loading.
    FinishLoading,
}

/// What to do with the packet's data.
#[derive(Clone, Copy, Debug, PartialEq, Eq, Structural)]
pub enum CaptureAction {
    Ignore,
    /// Keep the listed quest as a new quest.
    AddQuest,
    /// The difficulties belong to the quest at this position.
    SetDifficulty(usize),
    /// Keep the enemy for the quest at position `quest`.
    AddEnemy { quest: usize, difficulty: u16, map_id: u32 },
    /// Begin a new map, after saving the previous one if there is one.
    StartMap { save_previous: bool },
    /// Keep the spawned thing, in zone `zone`.
    AddObject { zone: u32 },
    AddNpc { zone: u32 },
    AddEvent { zone: u32 },
    AddTransporter { zone: u32 },
}

/// What collecting has seen so far: the quest object ids kept, in order; the
/// enemies kept, by quest position and name; the accepted quest and its
/// difficulty; whether a map is open, its current zone, the zones already
/// populated and whether spawns are accepted; and the `(zone, id)` of the
/// objects, NPCs, events and transporters kept.
pub struct CaptureState {
    quests: Vec<u32>,
    enemies: Vec<(usize, Vec<char>)>,
    quest_id: u32,
    quest_diff: u16,
    map_open: bool,
    map_id: u32,
    populated: Vec<u32>,
    accepting: bool,
    objects: Vec<(u32, u32)>,
    npcs: Vec<(u32, u32)>,
    events: Vec<(u32, u32)>,
    transporters: Vec<(u32, u32)>,
}

/// The view of a [`CaptureState`].
pub struct CaptureView {
    pub quests: Seq<u32>,
    pub enemies: Seq<(usize, Seq<char>)>,
    pub quest_id: u32,
    pub quest_diff: u16,
    pub map_open: bool,
    pub map_id: u32,
    pub populated: Seq<u32>,
    pub accepting: bool,
    pub objects: Seq<(u32, u32)>,
    pub npcs: Seq<(u32, u32)>,
    pub events: Seq<(u32, u32)>,
    pub transporters: Seq<(u32, u32)>,
}

impl View for CaptureState {
    type V = CaptureView;

    closed spec fn view(&self) -> CaptureView {
        CaptureView {
            quests: self.quests@,
            enemies: self.enemies@.map_values(|e: (usize, Vec<char>)| (e.0, e.1@)),
            quest_id: self.quest_id,
            quest_diff: self.quest_diff,
            map_open: self.map_open,
            map_id: self.map_id,
            populated: self.populated@,
            accepting: self.accepting,
            objects: self.objects@,
            npcs: self.npcs@,
            events: self.events@,
            transporters: self.transporters@,
        }
    }
}

/// The view of an event.
pub enum EventView {
    QuestListed(u32),
    QuestDifficulty(u32),
    AcceptQuest(u32, u16),
    EnemySpawn(Seq<char>),
    LoadLevel(u32),
    MapTransfer(u32),
    ObjectSpawn(u32),
    NpcSpawn(u32),
    EventSpawn(u32),
    TransporterSpawn(u32),
    FinishLoading,
}

impl View for CaptureEvent {
    type V = EventView;

    open spec fn view(&self) -> EventView {
        match self {
            CaptureEvent::QuestListed(q) => EventView::QuestListed(*q),
            CaptureEvent::QuestDifficulty(q) => EventView::QuestDifficulty(*q),
            CaptureEvent::AcceptQuest { quest_id, diff } => EventView::AcceptQuest(*quest_id, *diff),
            CaptureEvent::EnemySpawn(n) => EventView::EnemySpawn(n@),
            CaptureEvent::LoadLevel(m) => EventView::LoadLevel(*m),
            CaptureEvent::MapTransfer(m) => EventView::MapTransfer(*m),
            CaptureEvent::ObjectSpawn(i) => EventView::ObjectSpawn(*i),
            CaptureEvent::NpcSpawn(i) => EventView::NpcSpawn(*i),
            CaptureEvent::EventSpawn(i) => EventView::EventSpawn(*i),
            CaptureEvent::TransporterSpawn(i) => EventView::TransporterSpawn(*i),
            CaptureEvent::FinishLoading => EventView::FinishLoading,
        }
    }
}

/// `pos` is the first position of `s` holding `x`.
pub open spec fn is_first_of<T>(s: Seq<T>, pos: int, x: T) -> bool {
    &&& 0 <= pos < s.len()
    &&& s[pos] == x
    &&& forall|j: int| 0 <= j < pos ==> s[j] != x
}

/// The first position of `s` holding `x`, if any.
pub open spec fn first_of<T>(s: Seq<T>, x: T) -> Option<int> {
    if exists|p: int| is_first_of(s, p, x) {
        Some(choose|p: int| is_first_of(s, p, x))
    } else {
        None
    }
}

/// A spawn is kept when a map is open, its zone was not populated before,
/// spawns are accepted, and nothing with the same zone and id is kept in
/// `seen`.
pub open spec fn keeps_spawn(v: CaptureView, seen: Seq<(u32, u32)>, id: u32) -> bool {
    v.map_open && !v.populated.contains(v.map_id) && v.accepting && !seen.contains((v.map_id, id))
}

/// One packet of a capture: the new state and what to do with the packet.
/// Quests are kept once per quest object; difficulties go to the first quest
/// with that object; an enemy is kept once per name for the accepted quest;
/// a new map saves the previous one (and forgets the populated zones), and
/// opens with spawns accepted; moving to another zone marks the one left as
/// populated; spawns are kept once per zone and id (events are checked
/// against the NPCs kept); loading finished stops accepting spawns.
pub open spec fn capture_step(v: CaptureView, ev: EventView) -> (CaptureView, CaptureAction) {
    match ev {
        EventView::QuestListed(q) => if v.quests.contains(q) {
            (v, CaptureAction::Ignore)
        } else {
            (CaptureView { quests: v.quests.push(q), ..v }, CaptureAction::AddQuest)
        },
        EventView::QuestDifficulty(q) => match first_of(v.quests, q) {
            Some(p) => (v, CaptureAction::SetDifficulty(p as usize)),
            None => (v, CaptureAction::Ignore),
        },
        EventView::AcceptQuest(id, diff) => (CaptureView { quest_id: id, quest_diff: diff, ..v }, CaptureAction::Ignore),
        EventView::EnemySpawn(name) => match first_of(v.quests, v.quest_id) {
            Some(p) => if v.enemies.contains((p as usize, name)) {
                (v, CaptureAction::Ignore)
            } else {
                (
                    CaptureView { enemies: v.enemies.push((p as usize, name)), ..v },
                    CaptureAction::AddEnemy { quest: p as usize, difficulty: v.quest_diff, map_id: v.map_id },
                )
            },
            None => (v, CaptureAction::Ignore),
        },
        EventView::LoadLevel(m) => (
            CaptureView {
                map_open: true,
                map_id: m,
                populated: if v.map_open { Seq::empty() } else { v.populated },
                accepting: true,
                objects: Seq::empty(),
                npcs: Seq::empty(),
                events: Seq::empty(),
                transporters: Seq::empty(),
                ..v
            },
            CaptureAction::StartMap { save_previous: v.map_open },
        ),
        EventView::MapTransfer(m) => (
            CaptureView { populated: v.populated.push(v.map_id), map_id: m, accepting: true, ..v },
            CaptureAction::Ignore,
        ),
        EventView::ObjectSpawn(id) => if keeps_spawn(v, v.objects, id) {
            (CaptureView { objects: v.objects.push((v.map_id, id)), ..v }, CaptureAction::AddObject { zone: v.map_id })
        } else {
            (v, CaptureAction::Ignore)
        },
        EventView::NpcSpawn(id) => if keeps_spawn(v, v.npcs, id) {
            (CaptureView { npcs: v.npcs.push((v.map_id, id)), ..v }, CaptureAction::AddNpc { zone: v.map_id })
        } else {
            (v, CaptureAction::Ignore)
        },
        EventView::EventSpawn(id) => if keeps_spawn(v, v.npcs, id) {
            (CaptureView { events: v.events.push((v.map_id, id)), ..v }, CaptureAction::AddEvent { zone: v.map_id })
        } else {
            (v, CaptureAction::Ignore)
        },
        EventView::TransporterSpawn(id) => if keeps_spawn(v, v.transporters, id) {
            (
                CaptureView { transporters: v.transporters.push((v.map_id, id)), ..v },
                CaptureAction::AddTransporter { zone: v.map_id },
            )
        } else {
            (v, CaptureAction::Ignore)
        },
        EventView::FinishLoading => (CaptureView { accepting: false, ..v }, CaptureAction::Ignore),
    }
}

fn find_u32(s: &Vec<u32>, x: u32) -> (r: Option<usize>)
    ensures
        r matches Some(p) ==> is_first_of(s@, p as int, x),
        r is None ==> !s@.contains(x),
{
    let mut i: usize = 0;
    while i < s.len()
        invariant
            i <= s@.len(),
            forall|j: int| 0 <= j < i ==> s@[j] != x,
        decreases s@.len() - i,
    {
        if s[i] == x {
            return Some(i);
        }
        i = i + 1;
    }
    None
}

proof fn lemma_first_of<T>(s: Seq<T>, x: T, found: Option<usize>)
    requires
        found matches Some(p) ==> is_first_of(s, p as int, x),
        found is None ==> !s.contains(x),
    ensures
        first_of(s, x) == match found {
            Some(p) => Some(p as int),
            None => None::<int>,
        },
{
    match found {
        Some(p) => {
            assert(is_first_of(s, p as int, x));
            let c = choose|c: int| is_first_of(s, c, x);
            if c < p {
                assert(s[c] != x);
            } else if p < c {
                assert(s[p as int] != x);
            }
        },
        None => {
            if exists|c: int| is_first_of(s, c, x) {
                let c = choose|c: int| is_first_of(s, c, x);
                assert(s.contains(x));
            }
        },
    }
}

fn contains_pair(s: &Vec<(u32, u32)>, x: (u32, u32)) -> (r: bool)
    ensures
        r == s@.contains(x),
{
    let mut i: usize = 0;
    while i < s.len()
        invariant
            i <= s@.len(),
            forall|j: int| 0 <= j < i ==> s@[j] != x,
        decreases s@.len() - i,
    {
        let (a, b) = s[i];
        if a == x.0 && b == x.1 {
            assert(s@[i as int] == x);
            return true;
        }
        i = i + 1;
    }
    false
}

fn same_chars(a: &Vec<char>, b: &Vec<char>) -> (r: bool)
    ensures
        r == (a@ == b@),
{
    if a.len() != b.len() {
        return false;
    }
    let mut i: usize = 0;
    while i < a.len()
        invariant
            i <= a@.len(),
            a@.len() == b@.len(),
            forall|j: int| 0 <= j < i ==> a@[j] == b@[j],
        decreases a@.len() - i,
    {
        if a[i] != b[i] {
            return false;
        }
        i = i + 1;
    }
    assert(a@ =~= b@);
    true
}

fn has_enemy(enemies: &Vec<(usize, Vec<char>)>, quest: usize, name: &Vec<char>) -> (r: bool)
    ensures
        r == enemies@.map_values(|e: (usize, Vec<char>)| (e.0, e.1@)).contains((quest, name@)),
{
    let ghost vs = enemies@.map_values(|e: (usize, Vec<char>)| (e.0, e.1@));
    let mut i: usize = 0;
    while i < enemies.len()
        invariant
            i <= enemies@.len(),
            vs == enemies@.map_values(|e: (usize, Vec<char>)| (e.0, e.1@)),
            forall|j: int| 0 <= j < i ==> vs[j] != (quest, name@),
        decreases enemies@.len() - i,
    {
        let e = &enemies[i];
        if e.0 == quest && same_chars(&e.1, name) {
            assert(vs[i as int] == (quest, name@));
            return true;
        }
        i = i + 1;
    }
    false
}

impl CaptureState {
    /// Nothing seen yet: no quest, no map, quest 0 at difficulty 0 accepted.
    pub fn new() -> (r: Self)
        ensures
            r@.quests.len() == 0 && r@.enemies.len() == 0 && r@.quest_id == 0 && r@.quest_diff == 0,
            !r@.map_open && r@.map_id == 0 && r@.populated.len() == 0 && !r@.accepting,
            r@.objects.len() == 0 && r@.npcs.len() == 0 && r@.events.len() == 0 && r@.transporters.len() == 0,
    {
        CaptureState {
            quests: Vec::new(),
            enemies: Vec::new(),
            quest_id: 0,
            quest_diff: 0,
            map_open: false,
            map_id: 0,
            populated: Vec::new(),
            accepting: false,
            objects: Vec::new(),
            npcs: Vec::new(),
            events: Vec::new(),
            transporters: Vec::new(),
        }
    }

    /// Reads one packet of the capture (see [`capture_step`]).
    pub fn step(&mut self, ev: &CaptureEvent) -> (r: CaptureAction)
        ensures
            (final(self)@, r) == capture_step(old(self)@, ev@),
    {
        match ev {
            CaptureEvent::QuestListed(q) => {
                let found = find_u32(&self.quests, *q);
                if found.is_some() {
                    assert(self@.quests.contains(*q));
                    CaptureAction::Ignore
                } else {
                    self.quests.push(*q);
                    proof {
                        assert(self@.enemies =~= old(self)@.enemies);
                    }
                    CaptureAction::AddQuest
                }
            },
            CaptureEvent::QuestDifficulty(q) => {
                let found = find_u32(&self.quests, *q);
                proof {
                    lemma_first_of(self@.quests, *q, found);
                }
                match found {
                    Some(p) => CaptureAction::SetDifficulty(p),
                    None => CaptureAction::Ignore,
                }
            },
            CaptureEvent::AcceptQuest { quest_id, diff } => {
                self.quest_id = *quest_id;
                self.quest_diff = *diff;
                CaptureAction::Ignore
            },
            CaptureEvent::EnemySpawn(name) => {
                let found = find_u32(&self.quests, self.quest_id);
                proof {
                    lemma_first_of(self@.quests, self.quest_id, found);
                }
                match found {
                    Some(p) => {
                        if has_enemy(&self.enemies, p, name) {
                            CaptureAction::Ignore
                        } else {
                            let n = copy_chars(name);
                            self.enemies.push((p, n));
                            proof {
                                assert(self@.enemies =~= old(self)@.enemies.push((p, name@)));
                            }
                            CaptureAction::AddEnemy { quest: p, difficulty: self.quest_diff, map_id: self.map_id }
                        }
                    },
                    None => CaptureAction::Ignore,
                }
            },
            CaptureEvent::LoadLevel(m) => {
                let save_previous = self.map_open;
                if self.map_open {
                    self.populated = Vec::new();
                }
                self.map_id = *m;
                self.map_open = true;
                self.accepting = true;
                self.objects = Vec::new();
                self.npcs = Vec::new();
                self.events = Vec::new();
                self.transporters = Vec::new();
                proof {
                    if old(self)@.map_open {
                        assert(self@.populated =~= Seq::<u32>::empty());
                    }
                    assert(self@.objects =~= Seq::<(u32, u32)>::empty());
                    assert(self@.npcs =~= Seq::<(u32, u32)>::empty());
                    assert(self@.events =~= Seq::<(u32, u32)>::empty());
                    assert(self@.transporters =~= Seq::<(u32, u32)>::empty());
                }
                CaptureAction::StartMap { save_previous }
            },
            CaptureEvent::MapTransfer(m) => {
                let left = self.map_id;
                self.populated.push(left);
                self.map_id = *m;
                self.accepting = true;
                CaptureAction::Ignore
            },
            CaptureEvent::ObjectSpawn(id) => {
                if self.keeps(0, *id) {
                    self.objects.push((self.map_id, *id));
                    CaptureAction::AddObject { zone: self.map_id }
                } else {
                    CaptureAction::Ignore
                }
            },
            CaptureEvent::NpcSpawn(id) => {
                if self.keeps(1, *id) {
                    self.npcs.push((self.map_id, *id));
                    CaptureAction::AddNpc { zone: self.map_id }
                } else {
                    CaptureAction::Ignore
                }
            },
            CaptureEvent::EventSpawn(id) => {
                if self.keeps(1, *id) {
                    self.events.push((self.map_id, *id));
                    CaptureAction::AddEvent { zone: self.map_id }
                } else {
                    CaptureAction::Ignore
                }
            },
            CaptureEvent::TransporterSpawn(id) => {
                if self.keeps(3, *id) {
                    self.transporters.push((self.map_id, *id));
                    CaptureAction::AddTransporter { zone: self.map_id }
                } else {
                    CaptureAction::Ignore
                }
            },
            CaptureEvent::FinishLoading => {
                self.accepting = false;
                CaptureAction::Ignore
            },
        }
    }

    /// Whether a spawn with object id `id` is kept, checked against the
    /// objects (0), the NPCs (1) or the transporters (3).
    fn keeps(&self, list: u8, id: u32) -> (r: bool)
        ensures
            list == 0 ==> r == keeps_spawn(self@, self@.objects, id),
            list == 1 ==> r == keeps_spawn(self@, self@.npcs, id),
            list == 3 ==> r == keeps_spawn(self@, self@.transporters, id),
    {
        if !self.map_open || !self.accepting {
            return false;
        }
        if find_u32(&self.populated, self.map_id).is_some() {
            return false;
        }
        let seen = if list == 0 {
            &self.objects
        } else if list == 1 {
            &self.npcs
        } else {
            &self.transporters
        };
        !contains_pair(seen, (self.map_id, id))
    }
}

} // verus!
