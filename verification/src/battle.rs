use vstd::prelude::*;
use vstd::string::StringExecFns;

verus! {

/// The kind of an attack or of the defence it meets.
#[derive(Clone, Copy, Debug, PartialEq, Eq, Structural)]
pub enum AttackType {
    Mel,
    Rng,
    Tec,
}

/// A player's battle stats.
#[derive(Clone, Copy, Debug, Default)]
pub struct PlayerStats {
    pub max_hp: u32,
    pub hp: u32,
    pub dex: u32,
    pub base_mel_pwr: u32,
    pub weapon_mel_pwr: u32,
    pub base_rng_pwr: u32,
    pub weapon_rng_pwr: u32,
    pub base_tec_pwr: u32,
    pub weapon_tec_pwr: u32,
    pub base_mel_def: u32,
    pub base_rng_def: u32,
    pub base_tec_def: u32,
}

/// An enemy's battle stats.
#[derive(Clone, Copy, Debug, Default)]
pub struct EnemyStats {
    pub level: u32,
    pub exp: u32,
    pub max_hp: u32,
    pub hp: u32,
    pub dex: u32,
    pub max_mel_pwr: u32,
    pub min_mel_pwr: u32,
    pub max_rng_pwr: u32,
    pub min_rng_pwr: u32,
    pub max_tec_pwr: u32,
    pub min_tec_pwr: u32,
    pub mel_def: u32,
    pub rng_def: u32,
    pub tec_def: u32,
}

/// What a hit did: the damage dealt, the hit points left, and, when the
/// target fell, the experience it gives.
#[derive(Clone, Copy, Debug, PartialEq, Eq, Structural)]
pub struct HitOutcome {
    pub damage: u32,
    pub new_hp: u32,
    pub killed: bool,
    pub exp_amount: u32,
}

/// `a - b`, or 0 when `b` is larger.
pub open spec fn sat_sub(a: u32, b: u32) -> u32 {
    if a >= b {
        (a - b) as u32
    } else {
        0
    }
}

/// `x`, raised to `low` when smaller.
pub open spec fn at_least(x: u32, low: u32) -> u32 {
    if x < low {
        low
    } else {
        x
    }
}

/// Hit points after a hit: damage beyond the hit points leaves 0.
pub fn apply_damage(hp: u32, dmg: u32) -> (r: (u32, bool))
    ensures
        r.0 == sat_sub(hp, dmg),
        r.1 == (r.0 == 0),
{
    let new_hp = hp.saturating_sub(dmg);
    (new_hp, new_hp == 0)
}

impl PlayerStats {
    /// The hit points and the maximum hit points.
    pub fn get_hp(&self) -> (r: (u32, u32))
        ensures
            r == (self.hp, self.max_hp),
    {
        (self.hp, self.max_hp)
    }

    /// The base and weapon power for an attack type.
    pub fn attack_power(&self, kind: AttackType) -> (r: (u32, u32))
        ensures
            r == match kind {
                AttackType::Mel => (self.base_mel_pwr, self.weapon_mel_pwr),
                AttackType::Rng => (self.base_rng_pwr, self.weapon_rng_pwr),
                AttackType::Tec => (self.base_tec_pwr, self.weapon_tec_pwr),
            },
    {
        match kind {
            AttackType::Mel => (self.base_mel_pwr, self.weapon_mel_pwr),
            AttackType::Rng => (self.base_rng_pwr, self.weapon_rng_pwr),
            AttackType::Tec => (self.base_tec_pwr, self.weapon_tec_pwr),
        }
    }

    /// The defence against an attack type.
    pub fn defense(&self, kind: AttackType) -> (r: u32)
        ensures
            r == match kind {
                AttackType::Mel => self.base_mel_def,
                AttackType::Rng => self.base_rng_def,
                AttackType::Tec => self.base_tec_def,
            },
    {
        match kind {
            AttackType::Mel => self.base_mel_def,
            AttackType::Rng => self.base_rng_def,
            AttackType::Tec => self.base_tec_def,
        }
    }

    /// The player's stats rebuilt as `new_stats`, keeping the current hit points.
    pub fn update(&mut self, new_stats: PlayerStats)
        ensures
            *final(self) == (PlayerStats { hp: old(self).hp, ..new_stats }),
    {
        let hp = self.hp;
        *self = new_stats;
        self.hp = hp;
    }

    /// The player takes `dmg` damage from an enemy; a fallen player gives no
    /// experience.
    pub fn take_damage(&mut self, dmg: u32) -> (r: HitOutcome)
        ensures
            *final(self) == (PlayerStats { hp: sat_sub(old(self).hp, dmg), ..*old(self) }),
            r == (HitOutcome { damage: dmg, new_hp: final(self).hp, killed: final(self).hp == 0, exp_amount: 0 }),
    {
        let (new_hp, killed) = apply_damage(self.hp, dmg);
        self.hp = new_hp;
        HitOutcome { damage: dmg, new_hp, killed, exp_amount: 0 }
    }
}

/// The largest pure attack of a player hit: the summed powers minus the
/// defence, at least 2.
pub fn player_max_pure_attack(base_pwr: u32, weapon_pwr: u32, def: u32) -> (r: u32)
    requires
        base_pwr + weapon_pwr <= u32::MAX,
    ensures
        r == at_least(sat_sub((base_pwr + weapon_pwr) as u32, def), 2),
{
    let x = (base_pwr + weapon_pwr).saturating_sub(def);
    if x < 2 {
        2
    } else {
        x
    }
}

impl EnemyStats {
    /// The least and greatest power of an attack type.
    pub fn power_range(&self, kind: AttackType) -> (r: (u32, u32))
        ensures
            r == match kind {
                AttackType::Mel => (self.min_mel_pwr, self.max_mel_pwr),
                AttackType::Rng => (self.min_rng_pwr, self.max_rng_pwr),
                AttackType::Tec => (self.min_tec_pwr, self.max_tec_pwr),
            },
    {
        match kind {
            AttackType::Mel => (self.min_mel_pwr, self.max_mel_pwr),
            AttackType::Rng => (self.min_rng_pwr, self.max_rng_pwr),
            AttackType::Tec => (self.min_tec_pwr, self.max_tec_pwr),
        }
    }

    /// The defence against an attack type.
    pub fn defense(&self, kind: AttackType) -> (r: u32)
        ensures
            r == match kind {
                AttackType::Mel => self.mel_def,
                AttackType::Rng => self.rng_def,
                AttackType::Tec => self.tec_def,
            },
    {
        match kind {
            AttackType::Mel => self.mel_def,
            AttackType::Rng => self.rng_def,
            AttackType::Tec => self.tec_def,
        }
    }

    /// The least and greatest pure attack of this enemy's hit of the given
    /// type against defence `def`: powers minus defence, at least 1 and 2.
    pub fn pure_attack_range(&self, kind: AttackType, def: u32) -> (r: (u32, u32))
        ensures
            ({
                let (lo, hi) = match kind {
                    AttackType::Mel => (self.min_mel_pwr, self.max_mel_pwr),
                    AttackType::Rng => (self.min_rng_pwr, self.max_rng_pwr),
                    AttackType::Tec => (self.min_tec_pwr, self.max_tec_pwr),
                };
                r == (at_least(sat_sub(lo, def), 1), at_least(sat_sub(hi, def), 2))
            }),
    {
        let (lo, hi) = self.power_range(kind);
        let a = lo.saturating_sub(def);
        let b = hi.saturating_sub(def);
        (if a < 1 { 1 } else { a }, if b < 2 { 2 } else { b })
    }

    /// The enemy takes `dmg` damage; a fallen enemy gives its experience.
    pub fn take_damage(&mut self, dmg: u32) -> (r: HitOutcome)
        ensures
            *final(self) == (EnemyStats { hp: sat_sub(old(self).hp, dmg), ..*old(self) }),
            r == (HitOutcome {
                damage: dmg,
                new_hp: final(self).hp,
                killed: final(self).hp == 0,
                exp_amount: if final(self).hp == 0 { old(self).exp } else { 0 },
            }),
    {
        let (new_hp, killed) = apply_damage(self.hp, dmg);
        self.hp = new_hp;
        HitOutcome { damage: dmg, new_hp, killed, exp_amount: if killed { self.exp } else { 0 } }
    }
}

/// Why a hit cannot be worked out: the server data lacks the attack, or the
/// enemy (named first) lacks the hitbox that was hit.
#[derive(Clone, Debug, PartialEq, Eq)]
pub enum HitLookupError {
    NoDamageInfo(u32),
    NoHitboxInfo(String, u32),
}

/// `pos` is the first entry of `ids` equal to `id`.
pub open spec fn is_first_id(ids: Seq<u32>, pos: int, id: u32) -> bool {
    &&& 0 <= pos < ids.len()
    &&& ids[pos] == id
    &&& forall|j: int| 0 <= j < pos ==> #[trigger] ids[j] != id
}

fn first_id(ids: &Vec<u32>, id: u32) -> (r: Option<usize>)
    ensures
        r matches Some(p) ==> is_first_id(ids@, p as int, id),
        r is None ==> !ids@.contains(id),
{
    let mut i: usize = 0;
    while i < ids.len()
        invariant
            i <= ids@.len(),
            forall|j: int| 0 <= j < i ==> #[trigger] ids@[j] != id,
        decreases ids@.len() - i,
    {
        if ids[i] == id {
            return Some(i);
        }
        i = i + 1;
    }
    None
}

/// Finds the data of an attack: the position of the first of the server's
/// attacks with id `attack_id`.
pub fn find_attack(attack_ids: &Vec<u32>, attack_id: u32) -> (r: Result<usize, HitLookupError>)
    ensures
        r matches Ok(p) ==> is_first_id(attack_ids@, p as int, attack_id),
        r is Err <==> !attack_ids@.contains(attack_id),
        r matches Err(e) ==> e == HitLookupError::NoDamageInfo(attack_id),
{
    match first_id(attack_ids, attack_id) {
        Some(p) => {
            assert(attack_ids@[p as int] == attack_id);
            Ok(p)
        },
        None => Err(HitLookupError::NoDamageInfo(attack_id)),
    }
}

/// The attack and the hitbox of a player's hit on an enemy, as positions in
/// the server's attacks and the enemy's hitboxes (see [`find_attack`]); a
/// missing attack is reported before a missing hitbox, which names the enemy.
pub fn find_hit(attack_ids: &Vec<u32>, hitbox_ids: &Vec<u32>, enemy_name: &str, attack_id: u32, hitbox_id: u32) -> (r: Result<(usize, usize), HitLookupError>)
    ensures
        r matches Ok((a, h)) ==> is_first_id(attack_ids@, a as int, attack_id) && is_first_id(hitbox_ids@, h as int, hitbox_id),
        r matches Err(e) ==> (if !attack_ids@.contains(attack_id) {
            e == HitLookupError::NoDamageInfo(attack_id)
        } else {
            e matches HitLookupError::NoHitboxInfo(name, h) && name@ == enemy_name@ && h == hitbox_id
        }),
        r is Err <==> !attack_ids@.contains(attack_id) || !hitbox_ids@.contains(hitbox_id),
{
    let a = match find_attack(attack_ids, attack_id) {
        Ok(a) => a,
        Err(e) => return Err(e),
    };
    match first_id(hitbox_ids, hitbox_id) {
        Some(h) => {
            assert(hitbox_ids@[h as int] == hitbox_id);
            Ok((a, h))
        },
        None => Err(HitLookupError::NoHitboxInfo(String::from_str(enemy_name), hitbox_id)),
    }
}

/// Hit points never grow from a hit, and a hit that takes them all fells the target.
pub proof fn law_damage_monotone(hp: u32, dmg: u32)
    ensures
        sat_sub(hp, dmg) <= hp,
        dmg >= hp ==> sat_sub(hp, dmg) == 0,
        dmg < hp ==> sat_sub(hp, dmg) == hp - dmg,
{
}

// ---------------------------------------------------------------------------
// Experience and levels
// ---------------------------------------------------------------------------

/// A class's level and experience.
#[derive(Clone, Copy, Debug, PartialEq, Eq, Structural)]
pub struct ClassLevel {
    pub level1: u16,
    pub level2: u16,
    pub exp: u32,
}

/// The highest level a class levels up to.
pub const MAX_LEVEL: u16 = 100;

/// A class gaining `gained` experience: below level 100, when its experience
/// reaches the amount the table gives for its current level, it rises one
/// level; the experience always grows. The table entry is compared in 32
/// bits.
pub open spec fn gain_spec(level: ClassLevel, exp_to_next: Seq<u64>, gained: u32) -> ClassLevel {
    let new_exp = (level.exp + gained) as u32;
    if level.level1 < MAX_LEVEL && new_exp >= exp_to_next[level.level1 - 1] as u32 {
        ClassLevel { level1: (level.level1 + 1) as u16, level2: (level.level1 + 1) as u16, exp: new_exp }
    } else {
        ClassLevel { exp: new_exp, ..level }
    }
}

/// Adds `gained` experience to a class (see [`gain_spec`]); `exp_to_next[l - 1]`
/// is the experience needed to leave level `l`.
pub fn gain_exp(level: &mut ClassLevel, exp_to_next: &Vec<u64>, gained: u32)
    requires
        old(level).level1 >= 1,
        old(level).level1 < MAX_LEVEL ==> old(level).level1 - 1 < exp_to_next@.len(),
        old(level).exp + gained <= u32::MAX,
    ensures
        *final(level) == gain_spec(*old(level), exp_to_next@, gained),
{
    let new_exp = level.exp + gained;
    if level.level1 < MAX_LEVEL {
        let needed = exp_to_next[(level.level1 - 1) as usize];
        if new_exp >= needed as u32 {
            level.level1 = level.level1 + 1;
            level.level2 = level.level1;
        }
    }
    level.exp = new_exp;
}

/// The experience a class is set to when its level is forced to `new_level`:
/// what was needed to leave the level below, or 0 for level 1 and levels of
/// 100 and above.
pub open spec fn forced_level_exp(exp_to_next: Seq<u64>, new_level: u16) -> u64 {
    if 1 < new_level < 100 {
        exp_to_next[new_level - 2]
    } else {
        0
    }
}

/// Forces a class to `new_level`; returns the experience difference that the
/// client is shown as gained.
pub fn set_level(level: &mut ClassLevel, exp_to_next: &Vec<u64>, new_level: u16) -> (gained: u64)
    requires
        1 < new_level < 100 ==> new_level - 2 < exp_to_next@.len(),
        forced_level_exp(exp_to_next@, new_level) <= i64::MAX,
    ensures
        ({
            let exp = forced_level_exp(exp_to_next@, new_level);
            &&& *final(level) == (ClassLevel { level1: new_level, exp: exp as u32, ..*old(level) })
            &&& gained == if exp >= old(level).exp { exp - old(level).exp } else { old(level).exp - exp }
        }),
{
    let exp: u64 = if new_level > 1 && new_level < 100 {
        exp_to_next[(new_level - 2) as usize]
    } else {
        0
    };
    let old_exp = level.exp as u64;
    let diff = if exp >= old_exp {
        exp - old_exp
    } else {
        old_exp - exp
    };
    level.level1 = new_level;
    level.exp = exp as u32;
    diff
}

/// A class never rises more than one level from one gain, and never past 100.
pub proof fn law_one_level_per_gain(level: ClassLevel, exp_to_next: Seq<u64>, gained: u32)
    requires
        level.level1 >= 1,
    ensures
        gain_spec(level, exp_to_next, gained).level1 <= level.level1 + 1,
        level.level1 <= MAX_LEVEL ==> gain_spec(level, exp_to_next, gained).level1 <= MAX_LEVEL,
        gain_spec(level, exp_to_next, gained).level1 >= level.level1,
{
}

} // verus!
