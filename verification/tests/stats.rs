use pso2server::stats::{modifier_offset, RaceModifierStored, StatMultipliers};

fn m(hp: i8) -> StatMultipliers {
    StatMultipliers { hp, ..Default::default() }
}

#[test]
fn modifier_list_matches_offsets() {
    let stored = RaceModifierStored {
        human_male: m(1),
        human_female: m(2),
        newman_male: m(3),
        newman_female: m(4),
        cast_male: m(5),
        cast_female: m(6),
        deuman_male: m(7),
        deuman_female: m(8),
    };
    let list = stored.to_list();
    assert_eq!(list.len(), 8);
    assert_eq!(list[modifier_offset(0, 0)], stored.human_male);
    assert_eq!(list[modifier_offset(1, 1)], stored.newman_female);
    assert_eq!(list[modifier_offset(2, 0)], stored.cast_male);
    assert_eq!(list[modifier_offset(3, 1)], stored.deuman_female);
    assert_eq!(modifier_offset(3, 1), 7);
}
