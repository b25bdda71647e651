use vstd::prelude::*;

verus! {

/// Percent changes that a race and gender apply to the base stats.
#[derive(Clone, Copy, Debug, Default, PartialEq, Eq, Structural)]
pub struct StatMultipliers {
    pub hp: i8,
    pub mel_pow: i8,
    pub rng_pow: i8,
    pub tec_pow: i8,
    pub dex: i8,
    pub mel_def: i8,
    pub rng_def: i8,
    pub tec_def: i8,
}

/// The stat changes of every race and gender, as the data files hold them.
#[derive(Clone, Copy, Debug, Default)]
pub struct RaceModifierStored {
    pub human_male: StatMultipliers,
    pub human_female: StatMultipliers,
    pub newman_male: StatMultipliers,
    pub newman_female: StatMultipliers,
    pub cast_male: StatMultipliers,
    pub cast_female: StatMultipliers,
    pub deuman_male: StatMultipliers,
    pub deuman_female: StatMultipliers,
}

/// The stat changes of race `race` (0 human, 1 newman, 2 cast, 3 deuman) and
/// gender `gender` (0 male, 1 female).
pub open spec fn modifier_for(m: RaceModifierStored, race: int, gender: int) -> StatMultipliers {
    if race == 0 {
        if gender == 0 { m.human_male } else { m.human_female }
    } else if race == 1 {
        if gender == 0 { m.newman_male } else { m.newman_female }
    } else if race == 2 {
        if gender == 0 { m.cast_male } else { m.cast_female }
    } else {
        if gender == 0 { m.deuman_male } else { m.deuman_female }
    }
}

impl RaceModifierStored {
    /// The stat changes as the server data lists them: by race, male first.
    pub fn to_list(&self) -> (r: Vec<StatMultipliers>)
        ensures
            r@ == seq![
                self.human_male,
                self.human_female,
                self.newman_male,
                self.newman_female,
                self.cast_male,
                self.cast_female,
                self.deuman_male,
                self.deuman_female,
            ],
    {
        let mut v: Vec<StatMultipliers> = Vec::new();
        v.push(self.human_male);
        v.push(self.human_female);
        v.push(self.newman_male);
        v.push(self.newman_female);
        v.push(self.cast_male);
        v.push(self.cast_female);
        v.push(self.deuman_male);
        v.push(self.deuman_female);
        proof {
            assert(v@ =~= seq![
                self.human_male,
                self.human_female,
                self.newman_male,
                self.newman_female,
                self.cast_male,
                self.cast_female,
                self.deuman_male,
                self.deuman_female,
            ]);
        }
        v
    }
}

/// The position of a race and gender's stat changes in the server data's list.
pub fn modifier_offset(race: u16, gender: u16) -> (r: usize)
    ensures
        r == race * 2 + gender,
{
    race as usize * 2 + gender as usize
}

/// The list the data compiler writes and the offset the ship reads it at
/// agree: for every race and gender, the entry at the offset is that race and
/// gender's stat changes.
pub proof fn law_modifier_offset(m: RaceModifierStored, race: int, gender: int)
    requires
        0 <= race < 4,
        0 <= gender < 2,
    ensures
        seq![
            m.human_male,
            m.human_female,
            m.newman_male,
            m.newman_female,
            m.cast_male,
            m.cast_female,
            m.deuman_male,
            m.deuman_female,
        ][race * 2 + gender] == modifier_for(m, race, gender),
{
}

} // verus!
