use pso2server::quests::{unlock_quest, unlock_quests};
use pso2server::error::Error;
use pso2server::quest_type::{QuestType, QUEST_SLOTS};
use pso2server::quests::{contains_id, QuestInfo, Quests};

fn quest(name_id: u32, quest_type: QuestType, obj_id: u32) -> QuestInfo {
    QuestInfo {
        name_id,
        quest_type,
        obj_id,
        monster_levels: [1, 11, 21, 31, 41, 51, 61, 71],
        immediate_move: false,
    }
}

fn sample() -> Quests {
    Quests::load(vec![
        quest(100, QuestType::ARKS, 1000),
        quest(101, QuestType::ARKS, 1001),
        quest(102, QuestType::Extreme, 1002),
        quest(103, QuestType::ARKS, 1003),
    ])
}

#[test]
fn available_counts_and_mask() {
    let q = sample();
    let avail = q.get_availiable(&[100, 102, 103, 999]);
    assert_eq!(avail.counts.len(), QUEST_SLOTS);
    assert_eq!(avail.counts[3], 2);
    assert_eq!(avail.counts[1], 1);
    assert_eq!(avail.counts.iter().map(|c| *c as u32).sum::<u32>(), 3);
    assert_eq!(avail.available_types, (1u128 << 3) | (1u128 << 1));
    assert_eq!(avail.repeated_types, avail.available_types);
}

#[test]
fn nothing_unlocked_offers_nothing() {
    let q = sample();
    let avail = q.get_availiable(&[]);
    assert!(avail.counts.iter().all(|c| *c == 0));
    assert_eq!(avail.available_types, 0);
}

#[test]
fn category_lists_offered_positions() {
    let q = sample();
    assert_eq!(q.get_category(QuestType::ARKS, &[100, 101, 103]), vec![0, 1, 3]);
    assert_eq!(q.get_category(QuestType::ARKS, &[101]), vec![1]);
    assert_eq!(q.get_category(QuestType::Extreme, &[100]), Vec::<usize>::new());
}

#[test]
fn quest_lookup() {
    let q = sample();
    assert_eq!(q.find_by_obj(1002), Some(2));
    assert_eq!(q.find_by_obj(5), None);
    assert_eq!(q.get_quest_by_nameid(103), Some(3));
    assert_eq!(q.get_diff(1001), Some(1));
    assert_eq!(q.get(2).name_id, 102);
}

#[test]
fn accepting_quests() {
    let q = sample();
    assert_eq!(q.get_quest(1001, 3).unwrap(), (1, 31));
    assert!(matches!(q.get_quest(1001, 8), Err(Error::InvalidInput("get_quest"))));
    assert!(matches!(q.get_quest(42, 0), Err(Error::InvalidInput("get_quest"))));
    assert_eq!(q.get_story_quest(102).unwrap(), (2, 1));
    assert!(matches!(q.get_story_quest(7), Err(Error::InvalidInput("get_quest"))));
}

#[test]
fn quest_type_codes() {
    assert_eq!(QuestType::ARKS.code(), 3);
    assert_eq!(QuestType::Extreme.slot(), Some(1));
    assert_eq!(QuestType::Unk0.flag_bit(), 37);
}

#[test]
fn id_membership() {
    assert!(contains_id(&[1, 2, 3], 2));
    assert!(!contains_id(&[1, 2, 3], 4));
    assert!(!contains_id(&[], 0));
}

#[test]
fn unlock_notifications() {
    let q = sample();
    let mut queue: Vec<u32> = vec![103, 999, 100];
    assert_eq!(q.take_unlock_notifications(&mut queue), vec![3, 0]);
    assert!(queue.is_empty());
    let mut long: Vec<u32> = (0..60).map(|i| if i == 55 { 101 } else { 100 + (i % 2) * 900 }).collect();
    let taken = q.take_unlock_notifications(&mut long);
    assert_eq!(long.len(), 9);
    assert_eq!(taken.len(), 26);
    assert_eq!(long[4], 101);
}

#[test]
fn unlocking_quests_notifies_once() {
    let mut unlocked = vec![1u32];
    let mut notif = vec![];
    unlock_quest(&mut unlocked, &mut notif, 1);
    assert_eq!((unlocked.clone(), notif.clone()), (vec![1], vec![]));
    unlock_quest(&mut unlocked, &mut notif, 7);
    assert_eq!((unlocked.clone(), notif.clone()), (vec![1, 7], vec![7]));
    unlock_quests(&mut unlocked, &mut notif, &vec![7, 8, 8, 9]);
    assert_eq!((unlocked, notif), (vec![1, 7, 8, 9], vec![7, 8, 9]));
}
