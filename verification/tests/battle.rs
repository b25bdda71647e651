use pso2server::battle::{
    apply_damage, find_attack, find_hit, HitLookupError, gain_exp, player_max_pure_attack, set_level, AttackType, ClassLevel, EnemyStats,
    HitOutcome, PlayerStats,
};

#[test]
fn damage_is_saturating() {
    assert_eq!(apply_damage(100, 30), (70, false));
    assert_eq!(apply_damage(100, 100), (0, true));
    assert_eq!(apply_damage(10, 300), (0, true));
    assert_eq!(apply_damage(0, 0), (0, true));
}

#[test]
fn enemy_gives_exp_only_when_killed() {
    let mut enemy = EnemyStats { hp: 50, max_hp: 50, exp: 12, ..Default::default() };
    let hit = enemy.take_damage(20);
    assert_eq!(hit, HitOutcome { damage: 20, new_hp: 30, killed: false, exp_amount: 0 });
    let hit = enemy.take_damage(40);
    assert_eq!(hit, HitOutcome { damage: 40, new_hp: 0, killed: true, exp_amount: 12 });
    assert_eq!(enemy.hp, 0);
}

#[test]
fn player_takes_damage() {
    let mut player = PlayerStats { hp: 30, max_hp: 40, ..Default::default() };
    let hit = player.take_damage(10);
    assert_eq!(hit, HitOutcome { damage: 10, new_hp: 20, killed: false, exp_amount: 0 });
    assert_eq!(player.get_hp(), (20, 40));
    let hit = player.take_damage(25);
    assert!(hit.killed);
    assert_eq!(player.get_hp(), (0, 40));
}

#[test]
fn player_update_keeps_hp() {
    let mut player = PlayerStats { hp: 17, max_hp: 40, ..Default::default() };
    let new_stats = PlayerStats { hp: 99, max_hp: 120, base_mel_pwr: 5, ..Default::default() };
    player.update(new_stats);
    assert_eq!(player.get_hp(), (17, 120));
    assert_eq!(player.attack_power(AttackType::Mel), (5, 0));
}

#[test]
fn attack_ranges() {
    assert_eq!(player_max_pure_attack(100, 50, 30), 120);
    assert_eq!(player_max_pure_attack(10, 5, 30), 2);
    assert_eq!(player_max_pure_attack(10, 5, 14), 2);
    let enemy = EnemyStats { min_rng_pwr: 10, max_rng_pwr: 40, rng_def: 3, ..Default::default() };
    assert_eq!(enemy.pure_attack_range(AttackType::Rng, 5), (5, 35));
    assert_eq!(enemy.pure_attack_range(AttackType::Rng, 100), (1, 2));
    assert_eq!(enemy.defense(AttackType::Rng), 3);
    assert_eq!(enemy.power_range(AttackType::Tec), (0, 0));
}

#[test]
fn gaining_exp_levels_up_once() {
    let table: Vec<u64> = vec![100, 300, 600];
    let mut level = ClassLevel { level1: 1, level2: 1, exp: 0 };
    gain_exp(&mut level, &table, 50);
    assert_eq!(level, ClassLevel { level1: 1, level2: 1, exp: 50 });
    gain_exp(&mut level, &table, 1000);
    assert_eq!(level, ClassLevel { level1: 2, level2: 2, exp: 1050 });
    gain_exp(&mut level, &table, 0);
    assert_eq!(level, ClassLevel { level1: 3, level2: 3, exp: 1050 });
}

#[test]
fn level_cap_stops_levelling() {
    let table: Vec<u64> = vec![1; 99];
    let mut level = ClassLevel { level1: 100, level2: 100, exp: 5 };
    gain_exp(&mut level, &table, 10);
    assert_eq!(level, ClassLevel { level1: 100, level2: 100, exp: 15 });
}

#[test]
fn forcing_a_level() {
    let table: Vec<u64> = vec![100, 300, 600];
    let mut level = ClassLevel { level1: 1, level2: 1, exp: 50 };
    assert_eq!(set_level(&mut level, &table, 3), 250);
    assert_eq!(level, ClassLevel { level1: 3, level2: 1, exp: 300 });
    assert_eq!(set_level(&mut level, &table, 1), 300);
    assert_eq!(level, ClassLevel { level1: 1, level2: 1, exp: 0 });
}

#[test]
fn hit_lookup_reports_the_missing_piece() {
    let attacks = vec![100u32, 200, 200];
    let hitboxes = vec![1u32, 2];
    assert_eq!(find_hit(&attacks, &hitboxes, "Dagan", 200, 2), Ok((1, 1)));
    assert_eq!(find_hit(&attacks, &hitboxes, "Dagan", 300, 9), Err(HitLookupError::NoDamageInfo(300)));
    assert_eq!(find_hit(&attacks, &hitboxes, "Dagan", 100, 9), Err(HitLookupError::NoHitboxInfo("Dagan".to_string(), 9)));
    assert_eq!(find_attack(&attacks, 100), Ok(0));
    assert_eq!(find_attack(&attacks, 7), Err(HitLookupError::NoDamageInfo(7)));
}
