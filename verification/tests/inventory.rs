use pso2server::error::Error;
use pso2server::inventory::{
    decrease_item, increase_item, load_items_inner, AccountStorages, ChangeItemResult, Inventory,
    Item, ItemData, ItemId, ItemName, PlayerInventory, StorageInventory, StorageItemRequest,
    UpdatedInventoryItem, UpdatedItem, UuidAmount, StorageInfo,
};

fn kind(id: u16) -> ItemId {
    ItemId { item_type: 3, id, unk3: 0, subid: 0 }
}

fn stack(uuid: u64, id: u16, amount: u16) -> Item<u32> {
    Item { uuid, id: kind(id), data: ItemData::Consumable { flags: 0, amount } }
}

fn weapon(uuid: u64, id: u16) -> Item<u32> {
    Item { uuid, id: ItemId { item_type: 1, id, unk3: 0, subid: 0 }, data: ItemData::Other(7) }
}

fn amount_of(item: &Item<u32>) -> u16 {
    match item.data {
        ItemData::Consumable { amount, .. } => amount,
        ItemData::Other(_) => 1,
    }
}

fn storage(id: u8, items: Vec<Item<u32>>) -> StorageInventory<u32> {
    StorageInventory { storage_id: id, items, ..StorageInventory::default() }
}

fn inventory(items: Vec<Item<u32>>) -> Inventory<u32> {
    Inventory {
        inventory: PlayerInventory { meseta: 1000, max_capacity: 50, items, equiped: vec![] },
        character: storage(14, vec![]),
        storages: AccountStorages {
            default: storage(0, vec![]),
            premium: storage(1, vec![]),
            extend1: storage(2, vec![]),
            storage_meseta: 500,
        },
        loaded_items: vec![],
    }
}

#[test]
fn decreasing_a_stack() {
    let mut items = vec![stack(1, 10, 5), weapon(2, 20)];
    match decrease_item(&mut items, 1, 2).unwrap() {
        ChangeItemResult::Changed { uuid, new_amount, moved, item } => {
            assert_eq!((uuid, new_amount, moved), (1, 3, 2));
            assert_eq!(item.uuid, 0);
            assert_eq!(amount_of(&item), 2);
        }
        _ => panic!("expected a changed stack"),
    }
    assert_eq!(amount_of(&items[0]), 3);
    match decrease_item(&mut items, 1, 10).unwrap() {
        ChangeItemResult::Removed { item, amount } => {
            assert_eq!(item.uuid, 1);
            assert_eq!(amount, 3);
        }
        _ => panic!("expected a removed stack"),
    }
    assert_eq!(items.len(), 1);
    assert_eq!(items[0].uuid, 2);
}

#[test]
fn decreasing_refusals() {
    let mut items = vec![weapon(2, 20)];
    assert!(matches!(decrease_item(&mut items, 9, 1), Err(Error::InvalidInput("decrease_item"))));
    assert!(matches!(decrease_item(&mut items, 2, 2), Err(Error::InvalidInput("decrease_item"))));
    assert_eq!(items.len(), 1);
    assert!(matches!(decrease_item(&mut items, 2, 1), Ok(ChangeItemResult::Removed { amount: 1, .. })));
    assert!(items.is_empty());
}

#[test]
fn increasing_stacks_and_new_items() {
    let mut items = vec![stack(1, 10, 5)];
    match increase_item(&mut items, stack(50, 10, 4), 4).unwrap() {
        ChangeItemResult::Changed { uuid, new_amount, moved, .. } => {
            assert_eq!((uuid, new_amount, moved), (1, 9, 4));
        }
        _ => panic!("expected a grown stack"),
    }
    assert!(matches!(increase_item(&mut items, stack(51, 11, 1), 1), Ok(ChangeItemResult::New { amount: 1, .. })));
    assert_eq!(items.len(), 2);
    let mut gear = vec![weapon(2, 20)];
    assert!(matches!(increase_item(&mut gear, weapon(3, 20), 1), Err(Error::InvalidInput("increase_item"))));
    assert_eq!(gear.len(), 1);
}

#[test]
fn moving_to_storage() {
    let mut inv = inventory(vec![stack(1, 10, 5), weapon(2, 20)]);
    let mut uuid = 100;
    let reqs = vec![
        StorageItemRequest { uuid: 1, amount: 2, storage_id: 0 },
        StorageItemRequest { uuid: 2, amount: 1, storage_id: 14 },
    ];
    let rep = inv.move_to_storage(&reqs, &mut uuid).unwrap();
    assert_eq!(uuid, 101);
    assert_eq!(
        rep.updated_inventory,
        vec![
            UpdatedInventoryItem { uuid: 1, new_amount: 3, moved: 2 },
            UpdatedInventoryItem { uuid: 2, new_amount: 0, moved: 1 },
        ]
    );
    assert_eq!(rep.new_items.len(), 2);
    assert_eq!(rep.new_items[0].item.uuid, 101);
    assert_eq!(rep.new_items[0].storage_id, 0);
    assert_eq!(rep.new_items[1].item.uuid, 2);
    assert_eq!(rep.new_items[1].storage_id, 14);
    assert!(rep.updated.is_empty());
    assert_eq!(inv.inventory.items.len(), 1);
    assert_eq!(inv.storages.default.items.len(), 1);
    assert_eq!(inv.character.items.len(), 1);

    // a second deposit of the same kind grows the stored stack
    let rep = inv.move_to_storage(&vec![StorageItemRequest { uuid: 1, amount: 1, storage_id: 0 }], &mut uuid).unwrap();
    assert_eq!(rep.updated, vec![UpdatedItem { uuid: 101, new_amount: 3, storage_id: 0 }]);
    assert_eq!(uuid, 102);
}

#[test]
fn moving_to_unknown_storage_fails() {
    let mut inv = inventory(vec![stack(1, 10, 5)]);
    let mut uuid = 7;
    let reqs = vec![StorageItemRequest { uuid: 1, amount: 1, storage_id: 5 }];
    assert!(matches!(inv.move_to_storage(&reqs, &mut uuid), Err(Error::InvalidInput("move_to_storage"))));
    assert_eq!(uuid, 7);
    assert_eq!(amount_of(&inv.inventory.items[0]), 5);
}

#[test]
fn moving_back_to_inventory() {
    let mut inv = inventory(vec![]);
    inv.storages.premium.items.push(stack(30, 12, 4));
    let mut uuid = 200;
    let rep = inv
        .move_to_inventory(&vec![StorageItemRequest { uuid: 30, amount: 1, storage_id: 1 }], &mut uuid)
        .unwrap();
    assert_eq!(rep.new_items.len(), 1);
    assert_eq!(inv.inventory.items.len(), 1);
    assert_eq!(amount_of(&inv.inventory.items[0]), 1);
    assert_eq!(amount_of(&inv.storages.premium.items[0]), 3);
}

#[test]
fn moving_between_storages() {
    let mut inv = inventory(vec![]);
    inv.storages.default.items.push(weapon(40, 1));
    let mut uuid = 300;
    let rep = inv.move_storages(0, 2, &vec![UuidAmount { uuid: 40, amount: 1 }], &mut uuid).unwrap();
    assert_eq!(rep.new_items.len(), 1);
    assert!(inv.storages.default.items.is_empty());
    assert_eq!(inv.storages.extend1.items.len(), 1);
    assert!(inv.move_storages(0, 9, &vec![], &mut uuid).is_ok());
    // an unknown destination is found only after the item left its source
    assert!(matches!(
        inv.move_storages(2, 9, &vec![UuidAmount { uuid: 40, amount: 1 }], &mut uuid),
        Err(Error::InvalidInput("move_storages"))
    ));
    assert!(inv.storages.extend1.items.is_empty());
}

#[test]
fn discarding() {
    let mut inv = inventory(vec![stack(1, 10, 5)]);
    let out = inv.discard_inventory(&vec![UuidAmount { uuid: 1, amount: 2 }]).unwrap();
    assert_eq!(out, vec![UpdatedInventoryItem { uuid: 1, new_amount: 3, moved: 2 }]);
    assert!(inv.discard_inventory(&vec![UuidAmount { uuid: 77, amount: 1 }]).is_err());
    inv.character.items.push(stack(60, 13, 2));
    let out = inv.discard_storage(&vec![StorageItemRequest { uuid: 60, amount: 2, storage_id: 14 }]).unwrap();
    assert_eq!(out.len(), 1);
    assert_eq!(out[0].uuid, 60);
    assert_eq!(out[0].new_amount, 0);
    assert!(inv.character.items.is_empty());
}

#[test]
fn equipping() {
    let mut inv = inventory(vec![weapon(2, 20), weapon(3, 21)]);
    inv.equip_item(3).unwrap();
    inv.equip_item(2).unwrap();
    inv.equip_item(3).unwrap();
    assert_eq!(inv.inventory.equiped, vec![3, 2]);
    assert!(matches!(inv.equip_item(9), Err(Error::InvalidInput("equip_item"))));
    let sent = inv.send_equiped();
    assert_eq!(sent.len(), 2);
    assert_eq!((sent[0].0.uuid, sent[0].1), (3, 0));
    assert_eq!((sent[1].0.uuid, sent[1].1), (2, 1));
    inv.unequip_item(3).unwrap();
    assert_eq!(inv.inventory.equiped, vec![2]);
    assert!(matches!(inv.unequip_item(3), Err(Error::InvalidInput("unequip_item"))));
    assert_eq!(inv.get_inv_item(2).unwrap().uuid, 2);
    assert!(matches!(inv.get_inv_item(8), Err(Error::InvalidInput("get_inv_item"))));
}

#[test]
fn meseta_is_conserved() {
    let mut inv = inventory(vec![]);
    assert_eq!(inv.move_meseta(true, 300), (700, 800));
    assert_eq!(inv.move_meseta(true, 5000), (0, 1500));
    assert_eq!(inv.move_meseta(false, 100), (100, 1400));
    assert_eq!(inv.inventory.meseta + inv.storages.storage_meseta, 1500);
}

#[test]
fn item_names_are_sent_once() {
    let names = vec![
        ItemName { id: kind(10), en_name: "Monomate".into(), jp_name: "モノメイト".into() },
        ItemName { id: kind(11), en_name: "Dimate".into(), jp_name: "ジメイト".into() },
    ];
    let items = vec![stack(1, 10, 1), stack(2, 10, 1), stack(3, 12, 1)];
    let mut loaded = vec![];
    let out = load_items_inner(&mut loaded, &items, &names, true).unwrap();
    assert_eq!(out.len(), 1);
    assert_eq!(out[0].name, "Monomate");
    assert_eq!(loaded, vec![kind(10), kind(12)]);
    assert!(load_items_inner(&mut loaded, &items, &names, true).is_none());
    let jp = load_items_inner(&mut vec![], &vec![stack(4, 11, 1)], &names, false).unwrap();
    assert_eq!(jp[0].name, "ジメイト");
}

#[test]
fn storage_defaults_and_info() {
    let own: StorageInventory<u32> = StorageInventory::default();
    assert_eq!(
        own.generate_info(),
        StorageInfo { total_space: 300, used_space: 0, storage_id: 14, storage_type: 4, is_locked: 0, is_enabled: 1 }
    );
    let acc: AccountStorages<u32> = AccountStorages::default();
    assert_eq!(acc.premium.generate_info().is_locked, 1);
    assert_eq!(acc.premium.generate_info().is_enabled, 0);
    assert_eq!(acc.extend1.total_space, 500);
    assert_eq!(acc.default.storage_id, 0);
    let mut inv = inventory(vec![]);
    inv.storages.default.items.push(stack(1, 2, 3));
    assert_eq!(inv.storages.default.generate_info().used_space, 1);
    let p: PlayerInventory<u32> = PlayerInventory::default();
    assert_eq!((p.meseta, p.max_capacity, p.items.len()), (0, 50, 0));
}

#[test]
fn storage_summary_order() {
    let mut inv = inventory(vec![]);
    inv.character.items.push(stack(1, 1, 1));
    inv.storages.default.items.push(stack(2, 2, 1));
    inv.storages.extend1.items.push(stack(3, 3, 1));
    let (items, infos) = inv.storage_summary();
    let uuids: Vec<u64> = items.iter().map(|i| i.uuid).collect();
    assert_eq!(uuids, vec![1, 2, 3]);
    let ids: Vec<u8> = infos.iter().map(|i| i.storage_id).collect();
    assert_eq!(ids, vec![14, 0, 1, 2]);
    assert_eq!(infos[0].used_space, 1);
    assert_eq!(infos[2].used_space, 0);
}
