use pso2server::battle::{EnemyStats, HitOutcome};
use pso2server::zone::{interaction_target, spawn_choices, spawn_from_draws, InteractTarget, 
    damage_route, find_max_id, ChunkSpawns, DamageRoute, EnemyList, Minimap, SpawnKind, SpawnPlan,
};

#[test]
fn minimap_reveals_cells() {
    let mut map = Minimap::new();
    assert!(!map.is_revealed(0, 0));
    map.reveal_cell(1, 1);
    map.reveal_cell(8, 10);
    map.reveal_cell(2, 3);
    assert!(map.is_revealed(0, 0));
    assert!(map.is_revealed(7, 9));
    assert!(map.is_revealed(1, 2));
    assert!(!map.is_revealed(1, 3));
    let bytes = map.bytes();
    // cell 0, cell 12 and cell 79
    assert_eq!(bytes[0], 1);
    assert_eq!(bytes[1], 1 << 4);
    assert_eq!(bytes[9], 1 << 7);
    map.reveal_cell(1, 1);
    assert_eq!(map.bytes(), bytes);
}

#[test]
fn minimap_chunk_reveal_and_bytes() {
    let mut map = Minimap::from_bytes([0, 0, 0, 0, 0, 0, 0, 0, 0, 0b1000_0000]);
    map.reveal_all(&vec![(1, 2), (3, 5)]);
    assert!(map.is_revealed(0, 1));
    assert!(map.is_revealed(2, 4));
    assert!(map.is_revealed(7, 9));
    let count: u32 = map.bytes().iter().map(|b| b.count_ones()).sum();
    assert_eq!(count, 3);
}

#[test]
fn next_object_id() {
    assert_eq!(find_max_id(&vec![], &vec![], &vec![], &vec![]), 1);
    assert_eq!(find_max_id(&vec![3, 9, 2], &vec![4], &vec![], &vec![7]), 10);
    assert_eq!(find_max_id(&vec![1], &vec![2], &vec![30], &vec![7]), 31);
}

#[test]
fn automatic_chunks_spawn_once() {
    let mut spawns = ChunkSpawns::new();
    let kind = SpawnKind::Automatic { min: 1, max: 3 };
    assert_eq!(spawns.on_reveal(5, kind, 100, 2), SpawnPlan::Spawn { count: 2 });
    assert_eq!(spawns.on_reveal(5, kind, 900, 3), SpawnPlan::Nothing);
    assert_eq!(spawns.on_reveal(6, kind, 900, 1), SpawnPlan::Spawn { count: 1 });
}

#[test]
fn respawning_chunks() {
    let mut spawns = ChunkSpawns::new();
    let kind = SpawnKind::AutomaticWithRespawn { min: 2, max: 2, respawn_ns: 1000 };
    assert_eq!(spawns.on_reveal(1, kind, 5000, 2), SpawnPlan::Spawn { count: 2 });
    assert_eq!(spawns.on_reveal(1, kind, 6000, 2), SpawnPlan::Nothing);
    assert_eq!(spawns.on_reveal(1, kind, 6001, 2), SpawnPlan::Spawn { count: 2 });
    // the first spawn's time is kept, so later reveals keep spawning
    assert_eq!(spawns.on_reveal(1, kind, 6002, 2), SpawnPlan::Spawn { count: 2 });
}

#[test]
fn other_spawn_kinds() {
    let mut spawns = ChunkSpawns::new();
    assert_eq!(spawns.on_reveal(1, SpawnKind::Disabled, 0, 0), SpawnPlan::Nothing);
    assert_eq!(spawns.on_reveal(1, SpawnKind::Manual, 0, 0), SpawnPlan::RunScript);
    assert_eq!(
        spawns.on_reveal(1, SpawnKind::Automatic { min: 0, max: 4 }, 0, 4),
        SpawnPlan::Spawn { count: 4 }
    );
}

fn enemy(hp: u32, exp: u32) -> EnemyStats {
    EnemyStats { hp, max_hp: hp, exp, ..Default::default() }
}

#[test]
fn enemies_spawn_and_fall() {
    let mut list = EnemyList::new();
    let mut max_id = 10;
    assert_eq!(list.spawn(&mut max_id, enemy(50, 5)), 11);
    assert_eq!(list.spawn(&mut max_id, enemy(20, 7)), 12);
    assert_eq!(list.spawn(&mut max_id, enemy(30, 9)), 13);
    assert_eq!(max_id, 13);
    assert_eq!(list.find(12), Some(1));
    assert_eq!(list.hit(99, 10), None);
    assert_eq!(
        list.hit(11, 10),
        Some(HitOutcome { damage: 10, new_hp: 40, killed: false, exp_amount: 0 })
    );
    assert_eq!(
        list.hit(12, 25),
        Some(HitOutcome { damage: 25, new_hp: 0, killed: true, exp_amount: 7 })
    );
    assert_eq!(list.find(12), None);
    assert_eq!(list.find(13), Some(1));
    assert_eq!(list.find(11), Some(0));
}

#[test]
fn damage_routes() {
    assert_eq!(damage_route(true, false, false, true), DamageRoute::PlayerHitsEnemy);
    assert_eq!(damage_route(false, true, true, false), DamageRoute::EnemyHitsPlayer);
    assert_eq!(damage_route(true, false, true, false), DamageRoute::Ignore);
}

use pso2server::zone::{zone_position, PlayerCache};

#[test]
fn player_cache() {
    let mut cache = PlayerCache::new();
    cache.add(5, 0);
    cache.add(6, 2);
    assert_eq!(cache.find_player(6), Some(2));
    assert_eq!(cache.find_player(7), None);
    assert_eq!(cache.remove_player(5), Some(0));
    assert_eq!(cache.find_player(5), None);
    assert_eq!(cache.remove_player(5), None);
    cache.add(6, 1);
    assert_eq!(cache.find_player(6), Some(2));
    assert_eq!(cache.remove_player(6), Some(2));
    assert_eq!(cache.find_player(6), Some(1));
}

#[test]
fn zone_positions() {
    assert_eq!(zone_position(&vec![10, 20, 30], 20), Some(1));
    assert_eq!(zone_position(&vec![10, 20, 30], 40), None);
}

#[test]
fn interaction_prefers_objects_of_the_zone() {
    let objects = vec![(1u32, 10u32), (2, 20), (2, 21)];
    let npcs = vec![(2u32, 20u32), (2, 30)];
    assert_eq!(interaction_target(&objects, &npcs, 2, 20), Some(InteractTarget::Object(1)));
    assert_eq!(interaction_target(&objects, &npcs, 2, 30), Some(InteractTarget::Npc(1)));
    assert_eq!(interaction_target(&objects, &npcs, 1, 20), None);
    assert_eq!(interaction_target(&objects, &npcs, 3, 10), None);
}

#[test]
fn revealing_a_chunk_draws_within_bounds() {
    let mut spawns = ChunkSpawns::new();
    let kind = SpawnKind::Automatic { min: 3, max: 3 };
    assert_eq!(spawns.reveal_chunk(7, kind, 100), SpawnPlan::Spawn { count: 3 });
    assert_eq!(spawns.reveal_chunk(7, kind, 200), SpawnPlan::Nothing);
    let ranged = SpawnKind::Automatic { min: 1, max: 4 };
    match spawns.reveal_chunk(8, ranged, 300) {
        SpawnPlan::Spawn { count } => assert!((1..=4).contains(&count)),
        other => panic!("unexpected plan {:?}", other),
    }
    assert_eq!(spawns.reveal_chunk(9, SpawnKind::Manual, 300), SpawnPlan::RunScript);
}

#[test]
fn spawn_choices_keep_one_category() {
    let categories = vec![1u32, 2, 1, 2, 2];
    let choice = spawn_choices(&categories, 3, 6);
    assert!(matches!(choice.point, Some(p) if p < 3));
    assert_eq!(choice.enemies.len(), 6);
    let first = categories[choice.enemies[0]];
    assert!(choice.enemies.iter().all(|&e| categories[e] == first));

    let none = spawn_choices(&Vec::new(), 0, 5);
    assert_eq!(none.point, None);
    assert!(none.enemies.is_empty());
}

#[test]
fn spawn_follows_the_draws() {
    let categories = vec![1u32, 2, 1, 2, 2];
    let choice = spawn_from_draws(&categories, 4, 3, Some(2), 1, &vec![2, 0, 1]);
    assert_eq!(choice.point, Some(2));
    assert_eq!(choice.enemies, vec![4, 1, 3]);
    let other = spawn_from_draws(&categories, 0, 2, None, 2, &vec![1, 1]);
    assert_eq!(other.point, None);
    assert_eq!(other.enemies, vec![2, 2]);
    let none = spawn_from_draws(&Vec::new(), 0, 3, None, 0, &vec![]);
    assert!(none.enemies.is_empty());
}
