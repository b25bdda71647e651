use pso2server::capture::{CaptureAction, CaptureEvent, CaptureState};

fn name(s: &str) -> Vec<char> {
    s.chars().collect()
}

#[test]
fn quests_and_enemies_are_kept_once() {
    let mut c = CaptureState::new();
    assert_eq!(c.step(&CaptureEvent::QuestListed(5)), CaptureAction::AddQuest);
    assert_eq!(c.step(&CaptureEvent::QuestListed(9)), CaptureAction::AddQuest);
    assert_eq!(c.step(&CaptureEvent::QuestListed(5)), CaptureAction::Ignore);
    assert_eq!(c.step(&CaptureEvent::QuestDifficulty(9)), CaptureAction::SetDifficulty(1));
    assert_eq!(c.step(&CaptureEvent::QuestDifficulty(7)), CaptureAction::Ignore);
    assert_eq!(c.step(&CaptureEvent::EnemySpawn(name("goldrahda"))), CaptureAction::Ignore);
    assert_eq!(c.step(&CaptureEvent::AcceptQuest { quest_id: 9, diff: 2 }), CaptureAction::Ignore);
    assert_eq!(c.step(&CaptureEvent::LoadLevel(100)), CaptureAction::StartMap { save_previous: false });
    assert_eq!(
        c.step(&CaptureEvent::EnemySpawn(name("goldrahda"))),
        CaptureAction::AddEnemy { quest: 1, difficulty: 2, map_id: 100 }
    );
    assert_eq!(c.step(&CaptureEvent::EnemySpawn(name("goldrahda"))), CaptureAction::Ignore);
}

#[test]
fn spawns_are_kept_per_zone_while_loading() {
    let mut c = CaptureState::new();
    assert_eq!(c.step(&CaptureEvent::ObjectSpawn(1)), CaptureAction::Ignore);
    assert_eq!(c.step(&CaptureEvent::LoadLevel(10)), CaptureAction::StartMap { save_previous: false });
    assert_eq!(c.step(&CaptureEvent::ObjectSpawn(1)), CaptureAction::AddObject { zone: 10 });
    assert_eq!(c.step(&CaptureEvent::ObjectSpawn(1)), CaptureAction::Ignore);
    assert_eq!(c.step(&CaptureEvent::NpcSpawn(4)), CaptureAction::AddNpc { zone: 10 });
    assert_eq!(c.step(&CaptureEvent::EventSpawn(4)), CaptureAction::Ignore);
    assert_eq!(c.step(&CaptureEvent::EventSpawn(6)), CaptureAction::AddEvent { zone: 10 });
    assert_eq!(c.step(&CaptureEvent::FinishLoading), CaptureAction::Ignore);
    assert_eq!(c.step(&CaptureEvent::TransporterSpawn(2)), CaptureAction::Ignore);
    assert_eq!(c.step(&CaptureEvent::MapTransfer(11)), CaptureAction::Ignore);
    assert_eq!(c.step(&CaptureEvent::TransporterSpawn(2)), CaptureAction::AddTransporter { zone: 11 });
    assert_eq!(c.step(&CaptureEvent::MapTransfer(10)), CaptureAction::Ignore);
    assert_eq!(c.step(&CaptureEvent::ObjectSpawn(8)), CaptureAction::Ignore);
    assert_eq!(c.step(&CaptureEvent::LoadLevel(20)), CaptureAction::StartMap { save_previous: true });
    assert_eq!(c.step(&CaptureEvent::ObjectSpawn(1)), CaptureAction::AddObject { zone: 20 });
}
