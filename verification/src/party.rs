use vstd::prelude::*;
use crate::error::Error;

verus! {

/// The colour that marks a party member.
#[derive(Clone, Copy, Debug, PartialEq, Eq, Structural)]
pub enum Color {
    Red,
    Blue,
    Green,
    Yellow,
}

/// The four colours in the order they are handed out.
pub open spec fn color_order() -> Seq<Color> {
    seq![Color::Red, Color::Blue, Color::Green, Color::Yellow]
}

/// Whether some member already has colour `c`.
pub open spec fn color_used(colors: Seq<(u32, Color)>, c: Color) -> bool {
    exists|i: int| 0 <= i < colors.len() && (#[trigger] colors[i]).1 == c
}

/// The first colour, in hand-out order, that no member has.
pub open spec fn first_free_color(colors: Seq<(u32, Color)>) -> Option<Color> {
    if !color_used(colors, Color::Red) {
        Some(Color::Red)
    } else if !color_used(colors, Color::Blue) {
        Some(Color::Blue)
    } else if !color_used(colors, Color::Green) {
        Some(Color::Green)
    } else if !color_used(colors, Color::Yellow) {
        Some(Color::Yellow)
    } else {
        None
    }
}

/// No two members share a colour.
pub open spec fn colors_distinct(colors: Seq<(u32, Color)>) -> bool {
    forall|i: int, j: int| 0 <= i < j < colors.len() ==> (#[trigger] colors[i]).1 != (#[trigger] colors[j]).1
}

/// The most members a party has.
pub const MAX_PARTY_SIZE: usize = 4;

/// Who is in a party, who leads it and which colour each member has.
pub struct PartyRoster {
    id: u32,
    leader: u32,
    players: Vec<u32>,
    colors: Vec<(u32, Color)>,
}

/// The contents of a [`PartyRoster`].
pub struct RosterView {
    pub id: u32,
    pub leader: u32,
    pub players: Seq<u32>,
    pub colors: Seq<(u32, Color)>,
}

impl View for PartyRoster {
    type V = RosterView;

    closed spec fn view(&self) -> RosterView {
        RosterView { id: self.id, leader: self.leader, players: self.players@, colors: self.colors@ }
    }
}

/// A roster is well formed when it has at most four members and at most four
/// colour entries, all different.
pub open spec fn roster_wf(v: RosterView) -> bool {
    &&& v.players.len() <= MAX_PARTY_SIZE
    &&& v.colors.len() <= 4
    &&& colors_distinct(v.colors)
}

/// `pos` is the first member position holding `id`.
pub open spec fn is_first_player(players: Seq<u32>, pos: int, id: u32) -> bool {
    &&& 0 <= pos < players.len()
    &&& players[pos] == id
    &&& forall|j: int| 0 <= j < pos ==> players[j] != id
}

/// `pos` is the first colour entry of member `id`.
pub open spec fn is_first_color(colors: Seq<(u32, Color)>, pos: int, id: u32) -> bool {
    &&& 0 <= pos < colors.len()
    &&& colors[pos].0 == id
    &&& forall|j: int| 0 <= j < pos ==> (#[trigger] colors[j]).0 != id
}

/// The colour of member `id`: that of its first colour entry, red when it has none.
pub open spec fn color_of(colors: Seq<(u32, Color)>, id: u32) -> Color {
    if exists|p: int| #[trigger] is_first_color(colors, p, id) {
        colors[choose|p: int| #[trigger] is_first_color(colors, p, id)].1
    } else {
        Color::Red
    }
}

/// `s` without position `pos`, the last entry taking its place.
pub open spec fn swap_removed<T>(s: Seq<T>, pos: int) -> Seq<T> {
    s.update(pos, s.last()).drop_last()
}

/// What adding a member did: the new member's colour and the members that
/// were already there, each with its colour.
pub struct AddOutcome {
    pub color: Color,
    pub others: Vec<(u32, Color)>,
}

/// What removing a member did: whether the leadership passed on, and the
/// leader afterwards.
#[derive(Clone, Copy, Debug, PartialEq, Eq, Structural)]
pub struct RemoveOutcome {
    pub leader_changed: bool,
    pub leader: u32,
}

/// Adding a member that is not in the party and then removing it gives back
/// the member list and the colour entries the party had before.
pub proof fn law_add_then_remove(players: Seq<u32>, colors: Seq<(u32, Color)>, id: u32)
    requires
        !players.contains(id),
        forall|j: int| 0 <= j < colors.len() ==> (#[trigger] colors[j]).0 != id,
    ensures
        swap_removed(players.push(id), players.len() as int) == players,
        forall|c: Color| is_first_color(#[trigger] colors.push((id, c)), colors.len() as int, id),
        forall|c: Color| swap_removed(#[trigger] colors.push((id, c)), colors.len() as int) == colors,
        is_first_player(players.push(id), players.len() as int, id),
{
    assert(swap_removed(players.push(id), players.len() as int) =~= players);
    assert forall|c: Color| swap_removed(#[trigger] colors.push((id, c)), colors.len() as int) == colors by {
        assert(swap_removed(colors.push((id, c)), colors.len() as int) =~= colors);
    }
    assert forall|c: Color| is_first_color(#[trigger] colors.push((id, c)), colors.len() as int, id) by {
        let cs = colors.push((id, c));
        assert forall|j: int| 0 <= j < colors.len() implies (#[trigger] cs[j]).0 != id by {
            assert(cs[j] == colors[j]);
        }
    }
    assert forall|j: int| 0 <= j < players.len() implies players.push(id)[j] != id by {
        assert(players.push(id)[j] == players[j]);
    }
}

proof fn lemma_swap_removed_distinct(colors: Seq<(u32, Color)>, pos: int)
    requires
        colors_distinct(colors),
        0 <= pos < colors.len(),
    ensures
        colors_distinct(swap_removed(colors, pos)),
{
    let r = swap_removed(colors, pos);
    assert forall|i: int, j: int| 0 <= i < j < r.len() implies (#[trigger] r[i]).1 != (#[trigger] r[j]).1 by {
        let oi = if i == pos { colors.len() - 1 } else { i };
        let oj = if j == pos { colors.len() - 1 } else { j };
        assert(r[i] == colors[oi]);
        assert(r[j] == colors[oj]);
        assert(oi != oj);
        if oi < oj {
            assert(colors[oi].1 != colors[oj].1);
        } else {
            assert(colors[oj].1 != colors[oi].1);
        }
    }
}

/// `after` is `before` once member `id` (who is in it) left with outcome `o`:
/// the member's first occurrence is replaced by the last member, its first
/// colour entry (if any) likewise, and when it led the party the first
/// remaining member leads.
pub open spec fn removal(before: RosterView, after: RosterView, id: u32, o: RemoveOutcome) -> bool {
    exists|p: int| #[trigger]
        is_first_player(before.players, p, id) && ({
            let players = swap_removed(before.players, p);
            let changed = before.leader == id && players.len() > 0;
            &&& after.players == players
            &&& after.leader == if changed {
                players[0]
            } else {
                before.leader
            }
            &&& o.leader_changed == changed
            &&& o.leader == after.leader
            &&& after.id == before.id
            &&& (exists|q: int| #[trigger] is_first_color(before.colors, q, id)) ==> after.colors
                == swap_removed(before.colors, choose|q: int| #[trigger] is_first_color(before.colors, q, id))
            &&& !(exists|q: int| #[trigger] is_first_color(before.colors, q, id)) ==> after.colors
                == before.colors
        })
}

impl PartyRoster {
    /// An empty party with id `partyid`.
    pub fn new(partyid: u32) -> (r: Self)
        ensures
            r@.id == partyid,
            r@.leader == 0,
            r@.players.len() == 0,
            r@.colors.len() == 0,
            roster_wf(r@),
    {
        PartyRoster { id: partyid, leader: 0, players: Vec::new(), colors: Vec::new() }
    }

    /// The party id.
    pub fn get_obj(&self) -> (r: u32)
        ensures
            r == self@.id,
    {
        self.id
    }

    /// The members, in order.
    pub fn players(&self) -> (r: Vec<u32>)
        ensures
            r@ == self@.players,
    {
        let mut out: Vec<u32> = Vec::new();
        let mut i: usize = 0;
        while i < self.players.len()
            invariant
                i <= self.players@.len(),
                out@ == self.players@.take(i as int),
            decreases self.players@.len() - i,
        {
            out.push(self.players[i]);
            i = i + 1;
            proof {
                assert(out@ =~= self.players@.take(i as int));
            }
        }
        proof {
            assert(self.players@.take(self.players@.len() as int) =~= self.players@);
        }
        out
    }

    /// The leader.
    pub fn leader(&self) -> (r: u32)
        ensures
            r == self@.leader,
    {
        self.leader
    }

    fn color_used_exec(&self, c: Color) -> (r: bool)
        ensures
            r == color_used(self.colors@, c),
    {
        let mut i: usize = 0;
        while i < self.colors.len()
            invariant
                i <= self.colors@.len(),
                forall|j: int| 0 <= j < i ==> (#[trigger] self.colors@[j]).1 != c,
            decreases self.colors@.len() - i,
        {
            if self.colors[i].1 == c {
                return true;
            }
            i = i + 1;
        }
        false
    }

    /// Gives member `id` the first free colour and records it; red, and
    /// nothing recorded, when all four are taken.
    fn add_color(&mut self, id: u32) -> (r: Color)
        requires
            roster_wf(old(self)@),
        ensures
            roster_wf(final(self)@),
            final(self)@.id == old(self)@.id,
            final(self)@.leader == old(self)@.leader,
            final(self)@.players == old(self)@.players,
            match first_free_color(old(self)@.colors) {
                Some(c) => r == c && final(self)@.colors == old(self)@.colors.push((id, c)),
                None => r == Color::Red && final(self)@.colors == old(self)@.colors,
            },
    {
        let colors = [Color::Red, Color::Blue, Color::Green, Color::Yellow];
        let mut k: usize = 0;
        while k < 4
            invariant
                k <= 4,
                self@ == old(self)@,
                roster_wf(self@),
                colors@ == color_order(),
                forall|j: int| 0 <= j < k ==> color_used(self.colors@, #[trigger] colors@[j]),
            decreases 4 - k,
        {
            let color = colors[k];
            if !self.color_used_exec(color) {
                proof {
                    assert(colors@[0] == Color::Red);
                    assert(colors@[1] == Color::Blue);
                    assert(colors@[2] == Color::Green);
                    assert(colors@[3] == Color::Yellow);
                    assert(first_free_color(self.colors@) == Some(color));
                    if self.colors@.len() == 4 {
                        lemma_four_distinct_use_all(self.colors@, color);
                    }
                }
                self.colors.push((id, color));
                proof {
                    let cs = self.colors@;
                    assert forall|i: int, j: int| 0 <= i < j < cs.len() implies (#[trigger] cs[i]).1 != (#[trigger] cs[j]).1 by {
                        if j == cs.len() - 1 {
                            assert(old(self)@.colors[i] == cs[i]);
                        } else {
                            assert(old(self)@.colors[i] == cs[i]);
                            assert(old(self)@.colors[j] == cs[j]);
                        }
                    }
                }
                return color;
            }
            k = k + 1;
        }
        proof {
            assert(colors@[0] == Color::Red);
            assert(colors@[1] == Color::Blue);
            assert(colors@[2] == Color::Green);
            assert(colors@[3] == Color::Yellow);
        }
        Color::Red
    }

    /// The colour of member `id` (red when it has none).
    pub fn get_color(&self, id: u32) -> (r: Color)
        ensures
            r == color_of(self@.colors, id),
    {
        let mut i: usize = 0;
        while i < self.colors.len()
            invariant
                i <= self.colors@.len(),
                forall|j: int| 0 <= j < i ==> (#[trigger] self.colors@[j]).0 != id,
            decreases self.colors@.len() - i,
        {
            if self.colors[i].0 == id {
                proof {
                    assert(is_first_color(self.colors@, i as int, id));
                    let c = choose|c: int| #[trigger] is_first_color(self.colors@, c, id);
                    assert(is_first_color(self.colors@, c, id));
                    if c < i {
                        assert(self.colors@[c].0 != id);
                    } else if i < c {
                        assert(self.colors@[i as int].0 != id);
                    }
                }
                return self.colors[i].1;
            }
            i = i + 1;
        }
        proof {
            if exists|c: int| #[trigger] is_first_color(self.colors@, c, id) {
                let c = choose|c: int| #[trigger] is_first_color(self.colors@, c, id);
                assert(self.colors@[c].0 == id);
            }
        }
        Color::Red
    }

    /// Adds member `new_id`: a full party (four members) stays unchanged; else
    /// the member gets the first free colour, leads the party when it was
    /// empty, and joins at the end. Returns the colour and the members that
    /// were already there with their colours.
    pub fn add_player(&mut self, new_id: u32) -> (r: Option<AddOutcome>)
        requires
            roster_wf(old(self)@),
        ensures
            roster_wf(final(self)@),
            old(self)@.players.len() >= MAX_PARTY_SIZE ==> r is None && final(self)@ == old(self)@,
            old(self)@.players.len() < MAX_PARTY_SIZE ==> ({
                let colors = match first_free_color(old(self)@.colors) {
                    Some(c) => old(self)@.colors.push((new_id, c)),
                    None => old(self)@.colors,
                };
                &&& r matches Some(o)
                &&& o.color == match first_free_color(old(self)@.colors) {
                    Some(c) => c,
                    None => Color::Red,
                }
                &&& o.others@ == old(self)@.players.map_values(|p: u32| (p, color_of(colors, p)))
                &&& final(self)@.colors == colors
                &&& final(self)@.players == old(self)@.players.push(new_id)
                &&& final(self)@.leader == if old(self)@.players.len() == 0 {
                    new_id
                } else {
                    old(self)@.leader
                }
                &&& final(self)@.id == old(self)@.id
            }),
    {
        if self.players.len() >= MAX_PARTY_SIZE {
            return None;
        }
        let color = self.add_color(new_id);
        if self.players.len() == 0 {
            self.leader = new_id;
        }
        let mut others: Vec<(u32, Color)> = Vec::new();
        let n = self.players.len();
        let mut i: usize = 0;
        while i < n
            invariant
                n == self.players@.len(),
                i <= n,
                others@ == self.players@.take(i as int).map_values(|p: u32| (p, color_of(self.colors@, p))),
            decreases n - i,
        {
            let p = self.players[i];
            let c = self.get_color(p);
            others.push((p, c));
            i = i + 1;
            proof {
                assert(others@ =~= self.players@.take(i as int).map_values(|p: u32| (p, color_of(self.colors@, p))));
            }
        }
        proof {
            assert(self.players@.take(n as int) =~= self.players@);
        }
        self.players.push(new_id);
        Some(AddOutcome { color, others })
    }

    fn player_position(&self, id: u32) -> (r: Option<usize>)
        ensures
            r matches Some(p) ==> is_first_player(self@.players, p as int, id),
            r is None ==> !self@.players.contains(id),
    {
        let mut i: usize = 0;
        while i < self.players.len()
            invariant
                i <= self.players@.len(),
                forall|j: int| 0 <= j < i ==> self.players@[j] != id,
            decreases self.players@.len() - i,
        {
            if self.players[i] == id {
                return Some(i);
            }
            i = i + 1;
        }
        None
    }

    fn color_position(&self, id: u32) -> (r: Option<usize>)
        ensures
            r matches Some(p) ==> is_first_color(self@.colors, p as int, id),
            r is None ==> forall|j: int| 0 <= j < self@.colors.len() ==> (#[trigger] self@.colors[j]).0 != id,
    {
        let mut i: usize = 0;
        while i < self.colors.len()
            invariant
                i <= self.colors@.len(),
                forall|j: int| 0 <= j < i ==> (#[trigger] self.colors@[j]).0 != id,
            decreases self.colors@.len() - i,
        {
            if self.colors[i].0 == id {
                return Some(i);
            }
            i = i + 1;
        }
        None
    }

    /// Removes member `id`: its first occurrence leaves the member list (the
    /// last member taking its place), its first colour entry is freed, and when
    /// it led the party the first remaining member becomes leader. A member
    /// that is not in the party is refused.
    pub fn remove_player(&mut self, id: u32) -> (r: Result<RemoveOutcome, Error>)
        requires
            roster_wf(old(self)@),
        ensures
            roster_wf(final(self)@),
            !old(self)@.players.contains(id) ==> (r matches Err(Error::InvalidInput(m)) && m
                == "remove_player") && final(self)@ == old(self)@,
            old(self)@.players.contains(id) ==> (r matches Ok(o) && removal(old(self)@, final(self)@, id, o)),
    {
        let pos = match self.player_position(id) {
            Some(p) => p,
            None => {
                return Err(Error::InvalidInput("remove_player"));
            },
        };
        let ghost p = pos as int;
        self.players.swap_remove(pos);
        match self.color_position(id) {
            Some(q) => {
                proof {
                    lemma_swap_removed_distinct(self.colors@, q as int);
                    let c = choose|c: int| #[trigger] is_first_color(old(self)@.colors, c, id);
                    assert(is_first_color(old(self)@.colors, c, id));
                    if c < q {
                        assert(old(self)@.colors[c].0 != id);
                    } else if q < c {
                        assert(old(self)@.colors[q as int].0 != id);
                    }
                }
                self.colors.swap_remove(q);
            },
            None => {
                proof {
                    if exists|c: int| #[trigger] is_first_color(old(self)@.colors, c, id) {
                        let c = choose|c: int| #[trigger] is_first_color(old(self)@.colors, c, id);
                        assert(old(self)@.colors[c].0 == id);
                    }
                }
            },
        }
        let mut changed = false;
        if self.leader == id && self.players.len() > 0 {
            self.leader = self.players[0];
            changed = true;
        }
        proof {
            assert(is_first_player(old(self)@.players, p, id));
            assert(self@.players == swap_removed(old(self)@.players, p));
        }
        Ok(RemoveOutcome { leader_changed: changed, leader: self.leader })
    }

    /// Makes `leader` the leader.
    pub fn change_leader(&mut self, leader: u32)
        requires
            roster_wf(old(self)@),
        ensures
            roster_wf(final(self)@),
            final(self)@ == (RosterView { leader, ..old(self)@ }),
    {
        self.leader = leader;
    }

    /// Kicks member `kick_id` out of the party (see [`PartyRoster::remove_player`]);
    /// a member that is not in the party is refused.
    pub fn kick_player(&mut self, kick_id: u32) -> (r: Result<RemoveOutcome, Error>)
        requires
            roster_wf(old(self)@),
        ensures
            roster_wf(final(self)@),
            !old(self)@.players.contains(kick_id) ==> (r matches Err(Error::InvalidInput(m)) && m
                == "kick_player") && final(self)@ == old(self)@,
            old(self)@.players.contains(kick_id) ==> (r matches Ok(o) && removal(
                old(self)@,
                final(self)@,
                kick_id,
                o,
            )),
    {
        match self.player_position(kick_id) {
            None => Err(Error::InvalidInput("kick_player")),
            Some(_) => self.remove_player(kick_id),
        }
    }
}

/// With four entries of pairwise different colours, every colour is used.
proof fn lemma_four_distinct_use_all(colors: Seq<(u32, Color)>, c: Color)
    requires
        colors.len() == 4,
        colors_distinct(colors),
    ensures
        color_used(colors, c),
{
    let c0 = colors[0].1;
    let c1 = colors[1].1;
    let c2 = colors[2].1;
    let c3 = colors[3].1;
    assert(c0 != c1 && c0 != c2 && c0 != c3 && c1 != c2 && c1 != c3 && c2 != c3);
    if c0 == c {
        assert((colors[0]).1 == c);
    } else if c1 == c {
        assert((colors[1]).1 == c);
    } else if c2 == c {
        assert((colors[2]).1 == c);
    } else {
        assert((colors[3]).1 == c);
    }
}

// ---------------------------------------------------------------------------
// Invitations
// ---------------------------------------------------------------------------

/// `pos` is the first invitation to party `party_id`.
pub open spec fn is_first_invite(invites: Seq<(u32, u32)>, pos: int, party_id: u32) -> bool {
    &&& 0 <= pos < invites.len()
    &&& invites[pos].0 == party_id
    &&& forall|j: int| 0 <= j < pos ==> (#[trigger] invites[j]).0 != party_id
}

/// Whether some invitation is to party `party_id`.
pub open spec fn invited_to(invites: Seq<(u32, u32)>, party_id: u32) -> bool {
    exists|j: int| 0 <= j < invites.len() && (#[trigger] invites[j]).0 == party_id
}

/// The invitations of `invites` to one of the parties `ids`, in order.
pub open spec fn requested_invites(invites: Seq<(u32, u32)>, ids: Seq<u32>) -> Seq<(u32, u32)>
    decreases invites.len(),
{
    if invites.len() == 0 {
        invites
    } else {
        let prev = requested_invites(invites.drop_last(), ids);
        if ids.contains(invites.last().0) {
            prev.push(invites.last())
        } else {
            prev
        }
    }
}

/// The party invitations a player holds: the party's id and when the
/// invitation came (in seconds), in the order they came.
pub struct Invites {
    invites: Vec<(u32, u32)>,
}

impl View for Invites {
    type V = Seq<(u32, u32)>;

    closed spec fn view(&self) -> Seq<(u32, u32)> {
        self.invites@
    }
}

impl Invites {
    /// No invitations.
    pub fn new() -> (r: Self)
        ensures
            r@ == Seq::<(u32, u32)>::empty(),
    {
        Invites { invites: Vec::new() }
    }

    fn position(&self, party_id: u32) -> (r: Option<usize>)
        ensures
            r matches Some(p) ==> is_first_invite(self@, p as int, party_id),
            r is None ==> !invited_to(self@, party_id),
    {
        let mut i: usize = 0;
        while i < self.invites.len()
            invariant
                i <= self@.len(),
                forall|j: int| 0 <= j < i ==> (#[trigger] self@[j]).0 != party_id,
            decreases self@.len() - i,
        {
            if self.invites[i].0 == party_id {
                return Some(i);
            }
            i = i + 1;
        }
        None
    }

    /// A player invites this one to party `party_id` at time `now`: a player
    /// who rejects invitations, or who is already invited to that party, gets
    /// nothing; otherwise the invitation is recorded and sent (`true`).
    pub fn offer(&mut self, party_id: u32, now: u32, rejecting: bool) -> (sent: bool)
        ensures
            rejecting ==> !sent && final(self)@ == old(self)@,
            !rejecting && invited_to(old(self)@, party_id) ==> !sent && final(self)@ == old(self)@,
            !rejecting && !invited_to(old(self)@, party_id) ==> sent && final(self)@ == old(self)@.push(
                (party_id, now),
            ),
    {
        if rejecting {
            return false;
        }
        match self.position(party_id) {
            Some(_) => false,
            None => {
                self.invites.push((party_id, now));
                true
            },
        }
    }

    /// The player accepts the invitation to party `party_id`: its first
    /// invitation to that party goes, the last invitation taking its place.
    /// `false` when there is none.
    pub fn take(&mut self, party_id: u32) -> (found: bool)
        ensures
            !invited_to(old(self)@, party_id) ==> !found && final(self)@ == old(self)@,
            invited_to(old(self)@, party_id) ==> found && exists|p: int| #[trigger]
                is_first_invite(old(self)@, p, party_id) && final(self)@ == old(self)@.update(
                    p,
                    old(self)@.last(),
                ).drop_last(),
    {
        match self.position(party_id) {
            None => false,
            Some(p) => {
                self.invites.swap_remove(p);
                proof {
                    assert(final(self)@ =~= old(self)@.update(p as int, old(self)@.last()).drop_last());
                }
                true
            },
        }
    }

    /// The invitations to the parties `ids`, in the order they came.
    pub fn requested(&self, ids: &Vec<u32>) -> (r: Vec<(u32, u32)>)
        ensures
            r@ == requested_invites(self@, ids@),
    {
        let mut out: Vec<(u32, u32)> = Vec::new();
        let mut i: usize = 0;
        while i < self.invites.len()
            invariant
                i <= self@.len(),
                out@ == requested_invites(self@.take(i as int), ids@),
            decreases self@.len() - i,
        {
            proof {
                assert(self@.take(i + 1).drop_last() =~= self@.take(i as int));
            }
            let inv = self.invites[i];
            let mut k: usize = 0;
            let mut wanted = false;
            while k < ids.len()
                invariant
                    k <= ids@.len(),
                    wanted <==> exists|m: int| 0 <= m < k && ids@[m] == inv.0,
                decreases ids@.len() - k,
            {
                if ids[k] == inv.0 {
                    wanted = true;
                }
                k = k + 1;
            }
            proof {
                if wanted {
                    let m = choose|m: int| 0 <= m < k && ids@[m] == inv.0;
                    assert(ids@.contains(inv.0));
                }
            }
            if wanted {
                out.push(inv);
            }
            i = i + 1;
        }
        proof {
            assert(self@.take(i as int) =~= self@);
        }
        out
    }
}

// ---------------------------------------------------------------------------
// Paging answers
// ---------------------------------------------------------------------------

/// `items` cut into pages of at most `size`: each item goes to the last page
/// unless that page is full, and then starts a new one.
pub open spec fn pages<T>(items: Seq<T>, size: nat) -> Seq<Seq<T>>
    decreases items.len(),
{
    if items.len() == 0 {
        Seq::empty()
    } else {
        let p = pages(items.drop_last(), size);
        if p.len() > 0 && p.last().len() < size {
            p.update(p.len() - 1, p.last().push(items.last()))
        } else {
            p.push(seq![items.last()])
        }
    }
}

/// The views of a list of pages.
pub open spec fn page_views<T>(v: Seq<Vec<T>>) -> Seq<Seq<T>> {
    v.map_values(|p: Vec<T>| p@)
}

/// Cuts `items` into pages of at most `size` (see [`pages`]); party
/// information goes out ten parties a page and party details twelve.
pub fn paginate<T: Copy>(items: &Vec<T>, size: usize) -> (r: Vec<Vec<T>>)
    requires
        size > 0,
    ensures
        page_views(r@) == pages(items@, size as nat),
{
    let mut out: Vec<Vec<T>> = Vec::new();
    let mut cur: Vec<T> = Vec::new();
    let mut i: usize = 0;
    while i < items.len()
        invariant
            i <= items@.len(),
            size > 0,
            cur@.len() <= size,
            i == 0 ==> cur@.len() == 0 && out@.len() == 0,
            i > 0 ==> cur@.len() > 0,
            pages(items@.take(i as int), size as nat) == if i == 0 {
                page_views(out@)
            } else {
                page_views(out@).push(cur@)
            },
        decreases items@.len() - i,
    {
        proof {
            assert(items@.take(i + 1).drop_last() =~= items@.take(i as int));
            assert(items@.take(i + 1).last() == items@[i as int]);
        }
        let ghost prev_out = page_views(out@);
        let ghost prev_cur = cur@;
        if cur.len() >= size {
            let full = cur;
            out.push(full);
            cur = Vec::new();
            proof {
                assert(page_views(out@) =~= prev_out.push(prev_cur));
            }
        } else {
            proof {
                assert(page_views(out@) =~= prev_out);
            }
        }
        cur.push(items[i]);
        i = i + 1;
        proof {
            let p = pages(items@.take(i - 1), size as nat);
            if i == 1 {
                assert(p =~= Seq::<Seq<T>>::empty());
                assert(cur@ =~= seq![items@[0]]);
            } else if prev_cur.len() < size {
                assert(p == prev_out.push(prev_cur));
                assert(p.last() == prev_cur);
                assert(p.update(p.len() - 1, p.last().push(items@[i - 1])) =~= page_views(out@).push(cur@));
            } else {
                assert(p == prev_out.push(prev_cur));
                assert(cur@ =~= seq![items@[i - 1]]);
            }
            assert(pages(items@.take(i as int), size as nat) =~= page_views(out@).push(cur@));
        }
    }
    if cur.len() > 0 {
        out.push(cur);
    }
    proof {
        assert(items@.take(i as int) =~= items@);
        assert(page_views(out@) =~= pages(items@, size as nat));
    }
    out
}

/// The items of `p`, page after page.
pub open spec fn concat_pages<T>(p: Seq<Seq<T>>) -> Seq<T>
    decreases p.len(),
{
    if p.len() == 0 {
        Seq::empty()
    } else {
        concat_pages(p.drop_last()) + p.last()
    }
}

/// Pages keep every item in order, and every page holds at least one and at
/// most `size` items, all but the last exactly `size`.
pub proof fn law_pages<T>(items: Seq<T>, size: nat)
    requires
        size > 0,
    ensures
        forall|k: int| 0 <= k < pages(items, size).len() ==> 0 < (#[trigger] pages(items, size)[k]).len() <= size,
        forall|k: int| 0 <= k < pages(items, size).len() - 1 ==> (#[trigger] pages(items, size)[k]).len() == size,
        concat_pages(pages(items, size)) == items,
    decreases items.len(),
{
    if items.len() > 0 {
        let prev = items.drop_last();
        law_pages(prev, size);
        let p = pages(prev, size);
        let q = pages(items, size);
        if p.len() > 0 && p.last().len() < size {
            assert(q.drop_last() =~= p.drop_last());
            assert(concat_pages(p) == concat_pages(p.drop_last()) + p.last());
            assert(concat_pages(q) == concat_pages(q.drop_last()) + q.last());
            assert(q.last() == p.last().push(items.last()));
            assert(concat_pages(q) =~= concat_pages(p.drop_last()) + p.last().push(items.last()));
            assert(items =~= prev.push(items.last()));
            assert(concat_pages(q) =~= items);
            assert forall|k: int| 0 <= k < q.len() - 1 implies (#[trigger] q[k]).len() == size by {
                assert(q[k] == p[k]);
            }
        } else {
            assert(q.drop_last() =~= p);
            assert(concat_pages(q) == concat_pages(q.drop_last()) + q.last());
            assert(concat_pages(q) =~= items);
            assert forall|k: int| 0 <= k < q.len() - 1 implies (#[trigger] q[k]).len() == size by {
                assert(q[k] == p[k]);
                if k == p.len() - 1 {
                    assert(p.last().len() >= size);
                }
            }
        }
    } else {
        assert(pages(items, size) =~= Seq::<Seq<T>>::empty());
    }
}

} // verus!
