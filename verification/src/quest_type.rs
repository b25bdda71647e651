use vstd::prelude::*;
use crate::error::Error;

verus! {

/// The number of per-category counters in a list of available quests.
pub const QUEST_SLOTS: usize = 78;

/// The category of a quest, as the client knows it.
#[derive(Clone, Copy, Debug, PartialEq, Eq, Structural)]
pub enum QuestType {
    Unk0,
    Extreme,
    ARKS,
    LimitedTime,
    ExtremeDebug,
    Blank1,
    NetCafe,
    WarmingDebug,
    Blank2,
    Advance,
    Expedition,
    FreeDebug,
    ArksDebug,
    Challenge,
    Urgent,
    UrgentDebug,
    TimeAttack,
    TimeDebug,
    ArksDebug2,
    ArksDebug3,
    ArksDebug4,
    ArksDebug5,
    ArksDebug6,
    ArksDebug7,
    ArksDebug8,
    ArksDebug9,
    ArksDebug10,
    Blank3,
    Recommended,
    Ultimate,
    UltimateDebug,
    AGP,
    Bonus,
    StandardTraining,
    HunterTraining,
    RangerTraining,
    ForceTraining,
    FighterTraining,
    GunnerTraining,
    TechterTraining,
    BraverTraining,
    BouncerTraining,
    SummonerTraining,
    AutoAccept,
    Ridroid,
    CafeAGP,
    BattleBroken,
    BusterDebug,
    Poka12,
    StoryEP1,
    Buster,
    HeroTraining,
    Amplified,
    DarkBlastTraining,
    Endless,
    Blank4,
    PhantomTraining,
    AISTraining,
    DamageCalculation,
    EtoileTraining,
    Divide,
    Stars1,
    Stars2,
    Stars3,
    Stars4,
    Stars5,
    Stars6,
}

/// The wire code of each quest category.
pub open spec fn quest_code(t: QuestType) -> nat {
    match t {
        QuestType::Unk0 => 0,
        QuestType::Extreme => 1,
        QuestType::ARKS => 3,
        QuestType::LimitedTime => 4,
        QuestType::ExtremeDebug => 5,
        QuestType::Blank1 => 6,
        QuestType::NetCafe => 8,
        QuestType::WarmingDebug => 9,
        QuestType::Blank2 => 10,
        QuestType::Advance => 11,
        QuestType::Expedition => 12,
        QuestType::FreeDebug => 13,
        QuestType::ArksDebug => 14,
        QuestType::Challenge => 16,
        QuestType::Urgent => 17,
        QuestType::UrgentDebug => 18,
        QuestType::TimeAttack => 19,
        QuestType::TimeDebug => 20,
        QuestType::ArksDebug2 => 21,
        QuestType::ArksDebug3 => 22,
        QuestType::ArksDebug4 => 23,
        QuestType::ArksDebug5 => 24,
        QuestType::ArksDebug6 => 25,
        QuestType::ArksDebug7 => 26,
        QuestType::ArksDebug8 => 27,
        QuestType::ArksDebug9 => 28,
        QuestType::ArksDebug10 => 29,
        QuestType::Blank3 => 30,
        QuestType::Recommended => 32,
        QuestType::Ultimate => 33,
        QuestType::UltimateDebug => 34,
        QuestType::AGP => 35,
        QuestType::Bonus => 36,
        QuestType::StandardTraining => 37,
        QuestType::HunterTraining => 38,
        QuestType::RangerTraining => 39,
        QuestType::ForceTraining => 40,
        QuestType::FighterTraining => 41,
        QuestType::GunnerTraining => 42,
        QuestType::TechterTraining => 43,
        QuestType::BraverTraining => 44,
        QuestType::BouncerTraining => 45,
        QuestType::SummonerTraining => 46,
        QuestType::AutoAccept => 47,
        QuestType::Ridroid => 48,
        QuestType::CafeAGP => 49,
        QuestType::BattleBroken => 50,
        QuestType::BusterDebug => 51,
        QuestType::Poka12 => 52,
        QuestType::StoryEP1 => 55,
        QuestType::Buster => 56,
        QuestType::HeroTraining => 57,
        QuestType::Amplified => 58,
        QuestType::DarkBlastTraining => 61,
        QuestType::Endless => 62,
        QuestType::Blank4 => 64,
        QuestType::PhantomTraining => 65,
        QuestType::AISTraining => 66,
        QuestType::DamageCalculation => 68,
        QuestType::EtoileTraining => 69,
        QuestType::Divide => 70,
        QuestType::Stars1 => 71,
        QuestType::Stars2 => 72,
        QuestType::Stars3 => 73,
        QuestType::Stars4 => 74,
        QuestType::Stars5 => 75,
        QuestType::Stars6 => 76,
    }
}

/// The counter of the available-quests list that counts quests of a category;
/// `None` for auto-accepted quests, which are not counted.
pub open spec fn quest_slot(t: QuestType) -> Option<nat> {
    match t {
        QuestType::Unk0 => Some(0),
        QuestType::AutoAccept => None,
        QuestType::StoryEP1 => Some(55),
        _ => if 37 <= quest_code(t) <= 52 {
            Some(quest_code(t) + 1)
        } else {
            Some(quest_code(t))
        },
    }
}

/// Which category each counter of the available-quests packet counts, as the
/// packet lays its counters out (counter 55 is the story, 56 Buster, ...);
/// `None` for counters no category uses.
pub open spec fn slot_owner(s: nat) -> Option<QuestType> {
    if false {
        None
    } else if s == 0 {
        Some(QuestType::Unk0)
    } else if s == 1 {
        Some(QuestType::Extreme)
    } else if s == 3 {
        Some(QuestType::ARKS)
    } else if s == 4 {
        Some(QuestType::LimitedTime)
    } else if s == 5 {
        Some(QuestType::ExtremeDebug)
    } else if s == 6 {
        Some(QuestType::Blank1)
    } else if s == 8 {
        Some(QuestType::NetCafe)
    } else if s == 9 {
        Some(QuestType::WarmingDebug)
    } else if s == 10 {
        Some(QuestType::Blank2)
    } else if s == 11 {
        Some(QuestType::Advance)
    } else if s == 12 {
        Some(QuestType::Expedition)
    } else if s == 13 {
        Some(QuestType::FreeDebug)
    } else if s == 14 {
        Some(QuestType::ArksDebug)
    } else if s == 16 {
        Some(QuestType::Challenge)
    } else if s == 17 {
        Some(QuestType::Urgent)
    } else if s == 18 {
        Some(QuestType::UrgentDebug)
    } else if s == 19 {
        Some(QuestType::TimeAttack)
    } else if s == 20 {
        Some(QuestType::TimeDebug)
    } else if s == 21 {
        Some(QuestType::ArksDebug2)
    } else if s == 22 {
        Some(QuestType::ArksDebug3)
    } else if s == 23 {
        Some(QuestType::ArksDebug4)
    } else if s == 24 {
        Some(QuestType::ArksDebug5)
    } else if s == 25 {
        Some(QuestType::ArksDebug6)
    } else if s == 26 {
        Some(QuestType::ArksDebug7)
    } else if s == 27 {
        Some(QuestType::ArksDebug8)
    } else if s == 28 {
        Some(QuestType::ArksDebug9)
    } else if s == 29 {
        Some(QuestType::ArksDebug10)
    } else if s == 30 {
        Some(QuestType::Blank3)
    } else if s == 32 {
        Some(QuestType::Recommended)
    } else if s == 33 {
        Some(QuestType::Ultimate)
    } else if s == 34 {
        Some(QuestType::UltimateDebug)
    } else if s == 35 {
        Some(QuestType::AGP)
    } else if s == 36 {
        Some(QuestType::Bonus)
    } else if s == 38 {
        Some(QuestType::StandardTraining)
    } else if s == 39 {
        Some(QuestType::HunterTraining)
    } else if s == 40 {
        Some(QuestType::RangerTraining)
    } else if s == 41 {
        Some(QuestType::ForceTraining)
    } else if s == 42 {
        Some(QuestType::FighterTraining)
    } else if s == 43 {
        Some(QuestType::GunnerTraining)
    } else if s == 44 {
        Some(QuestType::TechterTraining)
    } else if s == 45 {
        Some(QuestType::BraverTraining)
    } else if s == 46 {
        Some(QuestType::BouncerTraining)
    } else if s == 47 {
        Some(QuestType::SummonerTraining)
    } else if s == 49 {
        Some(QuestType::Ridroid)
    } else if s == 50 {
        Some(QuestType::CafeAGP)
    } else if s == 51 {
        Some(QuestType::BattleBroken)
    } else if s == 52 {
        Some(QuestType::BusterDebug)
    } else if s == 53 {
        Some(QuestType::Poka12)
    } else if s == 55 {
        Some(QuestType::StoryEP1)
    } else if s == 56 {
        Some(QuestType::Buster)
    } else if s == 57 {
        Some(QuestType::HeroTraining)
    } else if s == 58 {
        Some(QuestType::Amplified)
    } else if s == 61 {
        Some(QuestType::DarkBlastTraining)
    } else if s == 62 {
        Some(QuestType::Endless)
    } else if s == 64 {
        Some(QuestType::Blank4)
    } else if s == 65 {
        Some(QuestType::PhantomTraining)
    } else if s == 66 {
        Some(QuestType::AISTraining)
    } else if s == 68 {
        Some(QuestType::DamageCalculation)
    } else if s == 69 {
        Some(QuestType::EtoileTraining)
    } else if s == 70 {
        Some(QuestType::Divide)
    } else if s == 71 {
        Some(QuestType::Stars1)
    } else if s == 72 {
        Some(QuestType::Stars2)
    } else if s == 73 {
        Some(QuestType::Stars3)
    } else if s == 74 {
        Some(QuestType::Stars4)
    } else if s == 75 {
        Some(QuestType::Stars5)
    } else if s == 76 {
        Some(QuestType::Stars6)
    } else {
        None
    }
}

/// Every counted category has its own counter, the one the packet layout
/// gives it: the counter of a category is owned by that category, the story
/// (`StoryEP1`) is counted at 55 and Buster quests at 56, and auto-accepted
/// quests are not counted.
pub proof fn law_slot_is_layout(t: QuestType)
    ensures
        quest_slot(t) matches Some(s) ==> slot_owner(s) == Some(t) && s < QUEST_SLOTS,
        quest_slot(t) is None <==> t == QuestType::AutoAccept,
        quest_slot(QuestType::StoryEP1) == Some(55nat),
        quest_slot(QuestType::Buster) == Some(56nat),
{
}

/// No two categories share a counter.
pub proof fn law_slots_distinct(t1: QuestType, t2: QuestType)
    ensures
        quest_slot(t1) is Some && quest_slot(t1) == quest_slot(t2) ==> t1 == t2,
{
    law_slot_is_layout(t1);
    law_slot_is_layout(t2);
}

/// The bit of the available-types mask that marks a category as present.
pub open spec fn quest_flag_bit(t: QuestType) -> nat {
    match t {
        QuestType::Unk0 => 37,
        QuestType::StoryEP1 => 2,
        _ => if 37 <= quest_code(t) <= 52 {
            quest_code(t) + 1
        } else {
            quest_code(t)
        },
    }
}

impl QuestType {
    /// The wire code of the category.
    pub fn code(&self) -> (r: u8)
        ensures
            r == quest_code(*self),
    {
        match self {
            QuestType::Unk0 => 0,
            QuestType::Extreme => 1,
            QuestType::ARKS => 3,
            QuestType::LimitedTime => 4,
            QuestType::ExtremeDebug => 5,
            QuestType::Blank1 => 6,
            QuestType::NetCafe => 8,
            QuestType::WarmingDebug => 9,
            QuestType::Blank2 => 10,
            QuestType::Advance => 11,
            QuestType::Expedition => 12,
            QuestType::FreeDebug => 13,
            QuestType::ArksDebug => 14,
            QuestType::Challenge => 16,
            QuestType::Urgent => 17,
            QuestType::UrgentDebug => 18,
            QuestType::TimeAttack => 19,
            QuestType::TimeDebug => 20,
            QuestType::ArksDebug2 => 21,
            QuestType::ArksDebug3 => 22,
            QuestType::ArksDebug4 => 23,
            QuestType::ArksDebug5 => 24,
            QuestType::ArksDebug6 => 25,
            QuestType::ArksDebug7 => 26,
            QuestType::ArksDebug8 => 27,
            QuestType::ArksDebug9 => 28,
            QuestType::ArksDebug10 => 29,
            QuestType::Blank3 => 30,
            QuestType::Recommended => 32,
            QuestType::Ultimate => 33,
            QuestType::UltimateDebug => 34,
            QuestType::AGP => 35,
            QuestType::Bonus => 36,
            QuestType::StandardTraining => 37,
            QuestType::HunterTraining => 38,
            QuestType::RangerTraining => 39,
            QuestType::ForceTraining => 40,
            QuestType::FighterTraining => 41,
            QuestType::GunnerTraining => 42,
            QuestType::TechterTraining => 43,
            QuestType::BraverTraining => 44,
            QuestType::BouncerTraining => 45,
            QuestType::SummonerTraining => 46,
            QuestType::AutoAccept => 47,
            QuestType::Ridroid => 48,
            QuestType::CafeAGP => 49,
            QuestType::BattleBroken => 50,
            QuestType::BusterDebug => 51,
            QuestType::Poka12 => 52,
            QuestType::StoryEP1 => 55,
            QuestType::Buster => 56,
            QuestType::HeroTraining => 57,
            QuestType::Amplified => 58,
            QuestType::DarkBlastTraining => 61,
            QuestType::Endless => 62,
            QuestType::Blank4 => 64,
            QuestType::PhantomTraining => 65,
            QuestType::AISTraining => 66,
            QuestType::DamageCalculation => 68,
            QuestType::EtoileTraining => 69,
            QuestType::Divide => 70,
            QuestType::Stars1 => 71,
            QuestType::Stars2 => 72,
            QuestType::Stars3 => 73,
            QuestType::Stars4 => 74,
            QuestType::Stars5 => 75,
            QuestType::Stars6 => 76,
        }
    }

    /// The counter that counts quests of this category, if any.
    pub fn slot(&self) -> (r: Option<u8>)
        ensures
            r matches Some(x) ==> quest_slot(*self) == Some(x as nat),
            r is None <==> quest_slot(*self) is None,
            r matches Some(x) ==> x < QUEST_SLOTS,
    {
        match self {
            QuestType::Unk0 => Some(0),
            QuestType::Extreme => Some(1),
            QuestType::ARKS => Some(3),
            QuestType::LimitedTime => Some(4),
            QuestType::ExtremeDebug => Some(5),
            QuestType::Blank1 => Some(6),
            QuestType::NetCafe => Some(8),
            QuestType::WarmingDebug => Some(9),
            QuestType::Blank2 => Some(10),
            QuestType::Advance => Some(11),
            QuestType::Expedition => Some(12),
            QuestType::FreeDebug => Some(13),
            QuestType::ArksDebug => Some(14),
            QuestType::Challenge => Some(16),
            QuestType::Urgent => Some(17),
            QuestType::UrgentDebug => Some(18),
            QuestType::TimeAttack => Some(19),
            QuestType::TimeDebug => Some(20),
            QuestType::ArksDebug2 => Some(21),
            QuestType::ArksDebug3 => Some(22),
            QuestType::ArksDebug4 => Some(23),
            QuestType::ArksDebug5 => Some(24),
            QuestType::ArksDebug6 => Some(25),
            QuestType::ArksDebug7 => Some(26),
            QuestType::ArksDebug8 => Some(27),
            QuestType::ArksDebug9 => Some(28),
            QuestType::ArksDebug10 => Some(29),
            QuestType::Blank3 => Some(30),
            QuestType::Recommended => Some(32),
            QuestType::Ultimate => Some(33),
            QuestType::UltimateDebug => Some(34),
            QuestType::AGP => Some(35),
            QuestType::Bonus => Some(36),
            QuestType::StandardTraining => Some(38),
            QuestType::HunterTraining => Some(39),
            QuestType::RangerTraining => Some(40),
            QuestType::ForceTraining => Some(41),
            QuestType::FighterTraining => Some(42),
            QuestType::GunnerTraining => Some(43),
            QuestType::TechterTraining => Some(44),
            QuestType::BraverTraining => Some(45),
            QuestType::BouncerTraining => Some(46),
            QuestType::SummonerTraining => Some(47),
            QuestType::AutoAccept => None,
            QuestType::Ridroid => Some(49),
            QuestType::CafeAGP => Some(50),
            QuestType::BattleBroken => Some(51),
            QuestType::BusterDebug => Some(52),
            QuestType::Poka12 => Some(53),
            QuestType::StoryEP1 => Some(55),
            QuestType::Buster => Some(56),
            QuestType::HeroTraining => Some(57),
            QuestType::Amplified => Some(58),
            QuestType::DarkBlastTraining => Some(61),
            QuestType::Endless => Some(62),
            QuestType::Blank4 => Some(64),
            QuestType::PhantomTraining => Some(65),
            QuestType::AISTraining => Some(66),
            QuestType::DamageCalculation => Some(68),
            QuestType::EtoileTraining => Some(69),
            QuestType::Divide => Some(70),
            QuestType::Stars1 => Some(71),
            QuestType::Stars2 => Some(72),
            QuestType::Stars3 => Some(73),
            QuestType::Stars4 => Some(74),
            QuestType::Stars5 => Some(75),
            QuestType::Stars6 => Some(76),
        }
    }

    /// The bit of the available-types mask for this category.
    pub fn flag_bit(&self) -> (r: u8)
        ensures
            r == quest_flag_bit(*self),
            r < 128,
    {
        match self {
            QuestType::Unk0 => 37,
            QuestType::Extreme => 1,
            QuestType::ARKS => 3,
            QuestType::LimitedTime => 4,
            QuestType::ExtremeDebug => 5,
            QuestType::Blank1 => 6,
            QuestType::NetCafe => 8,
            QuestType::WarmingDebug => 9,
            QuestType::Blank2 => 10,
            QuestType::Advance => 11,
            QuestType::Expedition => 12,
            QuestType::FreeDebug => 13,
            QuestType::ArksDebug => 14,
            QuestType::Challenge => 16,
            QuestType::Urgent => 17,
            QuestType::UrgentDebug => 18,
            QuestType::TimeAttack => 19,
            QuestType::TimeDebug => 20,
            QuestType::ArksDebug2 => 21,
            QuestType::ArksDebug3 => 22,
            QuestType::ArksDebug4 => 23,
            QuestType::ArksDebug5 => 24,
            QuestType::ArksDebug6 => 25,
            QuestType::ArksDebug7 => 26,
            QuestType::ArksDebug8 => 27,
            QuestType::ArksDebug9 => 28,
            QuestType::ArksDebug10 => 29,
            QuestType::Blank3 => 30,
            QuestType::Recommended => 32,
            QuestType::Ultimate => 33,
            QuestType::UltimateDebug => 34,
            QuestType::AGP => 35,
            QuestType::Bonus => 36,
            QuestType::StandardTraining => 38,
            QuestType::HunterTraining => 39,
            QuestType::RangerTraining => 40,
            QuestType::ForceTraining => 41,
            QuestType::FighterTraining => 42,
            QuestType::GunnerTraining => 43,
            QuestType::TechterTraining => 44,
            QuestType::BraverTraining => 45,
            QuestType::BouncerTraining => 46,
            QuestType::SummonerTraining => 47,
            QuestType::AutoAccept => 48,
            QuestType::Ridroid => 49,
            QuestType::CafeAGP => 50,
            QuestType::BattleBroken => 51,
            QuestType::BusterDebug => 52,
            QuestType::Poka12 => 53,
            QuestType::StoryEP1 => 2,
            QuestType::Buster => 56,
            QuestType::HeroTraining => 57,
            QuestType::Amplified => 58,
            QuestType::DarkBlastTraining => 61,
            QuestType::Endless => 62,
            QuestType::Blank4 => 64,
            QuestType::PhantomTraining => 65,
            QuestType::AISTraining => 66,
            QuestType::DamageCalculation => 68,
            QuestType::EtoileTraining => 69,
            QuestType::Divide => 70,
            QuestType::Stars1 => 71,
            QuestType::Stars2 => 72,
            QuestType::Stars3 => 73,
            QuestType::Stars4 => 74,
            QuestType::Stars5 => 75,
            QuestType::Stars6 => 76,
        }
    }
}

} // verus!
