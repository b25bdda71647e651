use vstd::prelude::*;
use crate::error::Error;

verus! {

/// The identity of an item kind.
#[derive(Clone, Copy, Debug, PartialEq, Eq, Structural)]
pub struct ItemId {
    pub item_type: u16,
    pub id: u16,
    pub unk3: u16,
    pub subid: u16,
}

/// What the inventory logic reads of an item's data: consumables have a flag
/// word and a stack amount; every other item carries data of type `D` that the
/// logic moves but never reads.
#[derive(Clone, Copy, Debug)]
pub enum ItemData<D> {
    Consumable { flags: u16, amount: u16 },
    Other(D),
}

/// An item owned by a player.
#[derive(Clone, Copy, Debug)]
pub struct Item<D> {
    pub uuid: u64,
    pub id: ItemId,
    pub data: ItemData<D>,
}

/// The outcome of taking from or adding to a list of items.
#[derive(Clone, Copy, Debug)]
pub enum ChangeItemResult<D> {
    /// A stack changed: `item` is the part that was taken off (for a decrease)
    /// or the whole stack (for an increase).
    Changed { uuid: u64, new_amount: u16, moved: u16, item: Item<D> },
    /// A new item was added.
    New { item: Item<D>, amount: u16 },
    /// An item was taken out whole.
    Removed { item: Item<D>, amount: u16 },
}

/// `pos` is the first position of `items` holding the item with `uuid`.
pub open spec fn is_first_uuid<D>(items: Seq<Item<D>>, pos: int, uuid: u64) -> bool {
    &&& 0 <= pos < items.len()
    &&& items[pos].uuid == uuid
    &&& forall|j: int| 0 <= j < pos ==> (#[trigger] items[j]).uuid != uuid
}

/// `pos` is the first position of `items` holding an item of kind `id`.
pub open spec fn is_first_id<D>(items: Seq<Item<D>>, pos: int, id: ItemId) -> bool {
    &&& 0 <= pos < items.len()
    &&& items[pos].id == id
    &&& forall|j: int| 0 <= j < pos ==> (#[trigger] items[j]).id != id
}

/// The first position of the item with `uuid`, if any.
pub open spec fn find_uuid<D>(items: Seq<Item<D>>, uuid: u64) -> Option<int> {
    if exists|p: int| #[trigger] is_first_uuid(items, p, uuid) {
        Some(choose|p: int| #[trigger] is_first_uuid(items, p, uuid))
    } else {
        None
    }
}

/// The first position of an item of kind `id`, if any.
pub open spec fn find_id<D>(items: Seq<Item<D>>, id: ItemId) -> Option<int> {
    if exists|p: int| #[trigger] is_first_id(items, p, id) {
        Some(choose|p: int| #[trigger] is_first_id(items, p, id))
    } else {
        None
    }
}

/// `items` without position `pos`, the last item taking its place.
pub open spec fn swap_removed<D>(items: Seq<Item<D>>, pos: int) -> Seq<Item<D>> {
    items.update(pos, items.last()).drop_last()
}

/// Taking `amount` of the item `uuid` out of `items`: a stack gives up to its
/// amount and goes away when emptied; another item can only be taken whole
/// (an amount above 1 is refused). The new list and the outcome.
pub open spec fn decrease_spec<D>(items: Seq<Item<D>>, uuid: u64, amount: u16) -> Result<
    (Seq<Item<D>>, ChangeItemResult<D>),
    Error,
> {
    match find_uuid(items, uuid) {
        None => Err(Error::InvalidInput("decrease_item")),
        Some(pos) => {
            let item = items[pos];
            match item.data {
                ItemData::Consumable { flags, amount: have } => {
                    let taken = if amount <= have {
                        amount
                    } else {
                        have
                    };
                    let new_amount = (have - taken) as u16;
                    if new_amount == 0 {
                        Ok((swap_removed(items, pos), ChangeItemResult::Removed { item, amount: taken }))
                    } else {
                        let kept = Item {
                            uuid: item.uuid,
                            id: item.id,
                            data: ItemData::Consumable { flags, amount: new_amount },
                        };
                        let part = Item {
                            uuid: 0,
                            id: item.id,
                            data: ItemData::Consumable { flags, amount: taken },
                        };
                        Ok((
                            items.update(pos, kept),
                            ChangeItemResult::Changed { uuid, new_amount, moved: taken, item: part },
                        ))
                    }
                },
                ItemData::Other(_) => {
                    if amount > 1 {
                        Err(Error::InvalidInput("decrease_item"))
                    } else {
                        Ok((swap_removed(items, pos), ChangeItemResult::Removed { item, amount: 1 }))
                    }
                },
            }
        },
    }
}

/// Adding `amount` of `item` to `items`: an existing stack of the same kind
/// grows (its 16-bit amount wraps around), another existing item of the same
/// kind refuses, and otherwise the item is appended.
pub open spec fn increase_spec<D>(items: Seq<Item<D>>, item: Item<D>, amount: u16) -> Result<
    (Seq<Item<D>>, ChangeItemResult<D>),
    Error,
> {
    match find_id(items, item.id) {
        Some(pos) => {
            let cur = items[pos];
            match cur.data {
                ItemData::Consumable { flags, amount: have } => {
                    let total = vstd::wrapping::u16_specs::wrapping_add(have, amount);
                    let grown = Item {
                        uuid: cur.uuid,
                        id: cur.id,
                        data: ItemData::Consumable { flags, amount: total },
                    };
                    Ok((
                        items.update(pos, grown),
                        ChangeItemResult::Changed {
                            uuid: cur.uuid,
                            new_amount: total,
                            moved: amount,
                            item: grown,
                        },
                    ))
                },
                ItemData::Other(_) => Err(Error::InvalidInput("increase_item")),
            }
        },
        None => Ok((items.push(item), ChangeItemResult::New { item, amount })),
    }
}

/// The position of the first item with `uuid`.
pub fn position_of_uuid<D: Copy>(items: &Vec<Item<D>>, uuid: u64) -> (r: Option<usize>)
    ensures
        r matches Some(p) ==> find_uuid(items@, uuid) == Some(p as int),
        r is None ==> find_uuid(items@, uuid) is None,
{
    let mut i: usize = 0;
    while i < items.len()
        invariant
            i <= items@.len(),
            forall|j: int| 0 <= j < i ==> (#[trigger] items@[j]).uuid != uuid,
        decreases items@.len() - i,
    {
        if items[i].uuid == uuid {
            proof {
                assert(is_first_uuid(items@, i as int, uuid));
                let c = choose|c: int| #[trigger] is_first_uuid(items@, c, uuid);
                assert(is_first_uuid(items@, c, uuid));
                if c < i {
                    assert(items@[c].uuid != uuid);
                } else if i < c {
                    assert(items@[i as int].uuid != uuid);
                }
            }
            return Some(i);
        }
        i = i + 1;
    }
    proof {
        if exists|c: int| #[trigger] is_first_uuid(items@, c, uuid) {
            let c = choose|c: int| #[trigger] is_first_uuid(items@, c, uuid);
            assert(items@[c].uuid == uuid);
        }
    }
    None
}

/// The position of the first item of kind `id`.
pub fn position_of_id<D: Copy>(items: &Vec<Item<D>>, id: ItemId) -> (r: Option<usize>)
    ensures
        r matches Some(p) ==> find_id(items@, id) == Some(p as int),
        r is None ==> find_id(items@, id) is None,
{
    let mut i: usize = 0;
    while i < items.len()
        invariant
            i <= items@.len(),
            forall|j: int| 0 <= j < i ==> (#[trigger] items@[j]).id != id,
        decreases items@.len() - i,
    {
        if items[i].id == id {
            proof {
                assert(is_first_id(items@, i as int, id));
                let c = choose|c: int| #[trigger] is_first_id(items@, c, id);
                assert(is_first_id(items@, c, id));
                if c < i {
                    assert(items@[c].id != id);
                } else if i < c {
                    assert(items@[i as int].id != id);
                }
            }
            return Some(i);
        }
        i = i + 1;
    }
    proof {
        if exists|c: int| #[trigger] is_first_id(items@, c, id) {
            let c = choose|c: int| #[trigger] is_first_id(items@, c, id);
            assert(items@[c].id == id);
        }
    }
    None
}

/// Takes `amount` of the item `uuid` out of `items` (see [`decrease_spec`]);
/// on failure the list is unchanged.
pub fn decrease_item<D: Copy>(items: &mut Vec<Item<D>>, uuid: u64, amount: u16) -> (r: Result<
    ChangeItemResult<D>,
    Error,
>)
    ensures
        match decrease_spec(old(items)@, uuid, amount) {
            Ok((new_items, change)) => r == Ok::<ChangeItemResult<D>, Error>(change) && final(items)@ == new_items,
            Err(e) => r == Err::<ChangeItemResult<D>, Error>(e) && final(items)@ == old(items)@,
        },
{
    let pos = match position_of_uuid(items, uuid) {
        Some(p) => p,
        None => {
            return Err(Error::InvalidInput("decrease_item"));
        },
    };
    let item = items[pos];
    match item.data {
        ItemData::Consumable { flags, amount: have } => {
            let taken = if amount <= have {
                amount
            } else {
                have
            };
            let new_amount = have - taken;
            if new_amount == 0 {
                let removed = items.swap_remove(pos);
                Ok(ChangeItemResult::Removed { item: removed, amount: taken })
            } else {
                let kept = Item {
                    uuid: item.uuid,
                    id: item.id,
                    data: ItemData::Consumable { flags, amount: new_amount },
                };
                items.set(pos, kept);
                let part = Item {
                    uuid: 0,
                    id: item.id,
                    data: ItemData::Consumable { flags, amount: taken },
                };
                Ok(ChangeItemResult::Changed { uuid, new_amount, moved: taken, item: part })
            }
        },
        ItemData::Other(_) => {
            if amount > 1 {
                return Err(Error::InvalidInput("decrease_item"));
            }
            let removed = items.swap_remove(pos);
            Ok(ChangeItemResult::Removed { item: removed, amount: 1 })
        },
    }
}

/// Adds `amount` of `item` to `items` (see [`increase_spec`]); on failure the
/// list is unchanged.
pub fn increase_item<D: Copy>(items: &mut Vec<Item<D>>, item: Item<D>, amount: u16) -> (r: Result<
    ChangeItemResult<D>,
    Error,
>)
    ensures
        match increase_spec(old(items)@, item, amount) {
            Ok((new_items, change)) => r == Ok::<ChangeItemResult<D>, Error>(change) && final(items)@ == new_items,
            Err(e) => r == Err::<ChangeItemResult<D>, Error>(e) && final(items)@ == old(items)@,
        },
{
    match position_of_id(items, item.id) {
        Some(pos) => {
            let cur = items[pos];
            match cur.data {
                ItemData::Consumable { flags, amount: have } => {
                    let total = have.wrapping_add(amount);
                    let grown = Item {
                        uuid: cur.uuid,
                        id: cur.id,
                        data: ItemData::Consumable { flags, amount: total },
                    };
                    items.set(pos, grown);
                    Ok(ChangeItemResult::Changed { uuid: cur.uuid, new_amount: total, moved: amount, item: grown })
                },
                ItemData::Other(_) => Err(Error::InvalidInput("increase_item")),
            }
        },
        None => {
            items.push(item);
            Ok(ChangeItemResult::New { item, amount })
        },
    }
}

// ---------------------------------------------------------------------------
// Inventories and storages
// ---------------------------------------------------------------------------

/// A storage box.
pub struct StorageInventory<D> {
    pub total_space: u32,
    pub storage_id: u8,
    pub is_enabled: bool,
    pub is_purchased: bool,
    pub storage_type: u8,
    pub items: Vec<Item<D>>,
}

/// What the client is told about a storage box.
#[derive(Clone, Copy, Debug, PartialEq, Eq, Structural)]
pub struct StorageInfo {
    pub total_space: u32,
    pub used_space: u32,
    pub storage_id: u8,
    pub storage_type: u8,
    pub is_locked: u8,
    pub is_enabled: u8,
}

impl<D> StorageInventory<D> {
    /// The description of this box (see [`StorageInventory::generate_info`]).
    pub open spec fn generate_info_spec(&self) -> StorageInfo {
        StorageInfo {
            total_space: self.total_space,
            used_space: self.items@.len() as u32,
            storage_id: self.storage_id,
            storage_type: self.storage_type,
            is_locked: if self.is_purchased { 0 } else { 1 },
            is_enabled: if self.is_enabled { 1 } else { 0 },
        }
    }

    /// The description of this box: its space, the number of items in it
    /// (cut to 32 bits), its id and type, and whether it is locked (not
    /// bought) and enabled.
    pub fn generate_info(&self) -> (r: StorageInfo)
        ensures
            r == self.generate_info_spec(),
    {
        StorageInfo {
            total_space: self.total_space,
            used_space: self.items.len() as u32,
            storage_id: self.storage_id,
            storage_type: self.storage_type,
            is_locked: if self.is_purchased { 0 } else { 1 },
            is_enabled: if self.is_enabled { 1 } else { 0 },
        }
    }
}

/// Appends copies of `src` to `dst`.
fn append_items<D: Copy>(dst: &mut Vec<Item<D>>, src: &Vec<Item<D>>)
    ensures
        final(dst)@ == old(dst)@ + src@,
{
    let ghost start = dst@;
    let mut i: usize = 0;
    while i < src.len()
        invariant
            i <= src@.len(),
            dst@ == start + src@.take(i as int),
        decreases src@.len() - i,
    {
        dst.push(src[i]);
        i = i + 1;
        proof {
            assert(dst@ =~= start + src@.take(i as int));
        }
    }
    proof {
        assert(src@.take(i as int) =~= src@);
    }
}

impl<D> Default for StorageInventory<D> {
    /// A character's own storage: 300 slots, id 14, type 4, bought and enabled.
    fn default() -> (r: Self)
        ensures
            r.total_space == 300,
            r.storage_id == 14,
            r.is_enabled,
            r.is_purchased,
            r.storage_type == 4,
            r.items@.len() == 0,
    {
        StorageInventory {
            total_space: 300,
            storage_id: 14,
            is_enabled: true,
            is_purchased: true,
            storage_type: 4,
            items: Vec::new(),
        }
    }
}

/// The storages shared by all characters of an account.
pub struct AccountStorages<D> {
    pub default: StorageInventory<D>,
    pub premium: StorageInventory<D>,
    pub extend1: StorageInventory<D>,
    pub storage_meseta: u64,
}

/// What a character carries.
pub struct PlayerInventory<D> {
    pub meseta: u64,
    pub max_capacity: u32,
    pub items: Vec<Item<D>>,
    pub equiped: Vec<u64>,
}

impl<D> Default for AccountStorages<D> {
    /// The storages of a new account: the default storage (200 slots, id 0,
    /// bought and enabled), the premium storage (400 slots, id 1) and the
    /// first extension (500 slots, id 2), neither of them bought nor enabled,
    /// and no meseta.
    fn default() -> (r: Self)
        ensures
            r.storage_meseta == 0,
            r.default.total_space == 200 && r.default.storage_id == 0 && r.default.is_enabled && r.default.is_purchased
                && r.default.storage_type == 0 && r.default.items@.len() == 0,
            r.premium.total_space == 400 && r.premium.storage_id == 1 && !r.premium.is_enabled && !r.premium.is_purchased
                && r.premium.storage_type == 1 && r.premium.items@.len() == 0,
            r.extend1.total_space == 500 && r.extend1.storage_id == 2 && !r.extend1.is_enabled && !r.extend1.is_purchased
                && r.extend1.storage_type == 2 && r.extend1.items@.len() == 0,
    {
        AccountStorages {
            storage_meseta: 0,
            default: StorageInventory {
                total_space: 200,
                storage_id: 0,
                is_enabled: true,
                is_purchased: true,
                storage_type: 0,
                items: Vec::new(),
            },
            premium: StorageInventory {
                total_space: 400,
                storage_id: 1,
                is_enabled: false,
                is_purchased: false,
                storage_type: 1,
                items: Vec::new(),
            },
            extend1: StorageInventory {
                total_space: 500,
                storage_id: 2,
                is_enabled: false,
                is_purchased: false,
                storage_type: 2,
                items: Vec::new(),
            },
        }
    }
}

impl<D> Default for PlayerInventory<D> {
    /// An empty inventory with room for 50 items and no meseta.
    fn default() -> (r: Self)
        ensures
            r.meseta == 0,
            r.max_capacity == 50,
            r.items@.len() == 0,
            r.equiped@.len() == 0,
    {
        PlayerInventory { meseta: 0, max_capacity: 50, items: Vec::new(), equiped: Vec::new() }
    }
}

/// A character's inventory, its own storage and the account storages.
pub struct Inventory<D> {
    pub inventory: PlayerInventory<D>,
    pub character: StorageInventory<D>,
    pub storages: AccountStorages<D>,
    pub loaded_items: Vec<ItemId>,
}

/// The contents of an [`Inventory`].
pub struct InventoryView<D> {
    pub meseta: u64,
    pub items: Seq<Item<D>>,
    pub equiped: Seq<u64>,
    /// Storage boxes by slot: 0 default, 1 premium, 2 extend1, 3 character.
    pub boxes: Seq<Seq<Item<D>>>,
    /// Storage ids by slot.
    pub box_ids: Seq<u8>,
    pub storage_meseta: u64,
}

impl<D> View for Inventory<D> {
    type V = InventoryView<D>;

    open spec fn view(&self) -> InventoryView<D> {
        InventoryView {
            meseta: self.inventory.meseta,
            items: self.inventory.items@,
            equiped: self.inventory.equiped@,
            boxes: seq![
                self.storages.default.items@,
                self.storages.premium.items@,
                self.storages.extend1.items@,
                self.character.items@,
            ],
            box_ids: seq![
                self.storages.default.storage_id,
                self.storages.premium.storage_id,
                self.storages.extend1.storage_id,
                self.character.storage_id,
            ],
            storage_meseta: self.storages.storage_meseta,
        }
    }
}

/// What a storage box holds besides its items and id: its size, whether it is
/// enabled and purchased, and its type.
pub open spec fn box_settings<D>(b: StorageInventory<D>) -> (u32, bool, bool, u8) {
    (b.total_space, b.is_enabled, b.is_purchased, b.storage_type)
}

impl<D> Inventory<D> {
    /// What moving, discarding and equipping items never change: the carried
    /// capacity, the settings of the four storage boxes (by slot) and the
    /// list of loaded item ids.
    pub open spec fn fixed(&self) -> (u32, Seq<(u32, bool, bool, u8)>, Seq<ItemId>) {
        (
            self.inventory.max_capacity,
            seq![
                box_settings(self.storages.default),
                box_settings(self.storages.premium),
                box_settings(self.storages.extend1),
                box_settings(self.character),
            ],
            self.loaded_items@,
        )
    }
}

/// The storage slot that a requested storage id names: 0 the default storage,
/// 1 premium, 2 extend1 and 14 the character's own storage.
pub open spec fn box_slot(storage_id: u16) -> Option<int> {
    if storage_id == 0 {
        Some(0)
    } else if storage_id == 1 {
        Some(1)
    } else if storage_id == 2 {
        Some(2)
    } else if storage_id == 14 {
        Some(3)
    } else {
        None
    }
}

/// The inventory with the items of slot `slot` replaced.
pub open spec fn with_box<D>(v: InventoryView<D>, slot: int, items: Seq<Item<D>>) -> InventoryView<D> {
    InventoryView { boxes: v.boxes.update(slot, items), ..v }
}

/// The inventory with the carried items replaced.
pub open spec fn with_items<D>(v: InventoryView<D>, items: Seq<Item<D>>) -> InventoryView<D> {
    InventoryView { items, ..v }
}

/// A request to move or discard part of a stored or carried item.
#[derive(Clone, Copy, Debug)]
pub struct StorageItemRequest {
    pub uuid: u64,
    pub amount: u8,
    pub storage_id: u16,
}

/// A carried item whose amount changed.
#[derive(Clone, Copy, Debug, PartialEq, Eq, Structural)]
pub struct UpdatedInventoryItem {
    pub uuid: u64,
    pub new_amount: u16,
    pub moved: u16,
}

/// A stored item whose amount changed.
#[derive(Clone, Copy, Debug, PartialEq, Eq, Structural)]
pub struct UpdatedItem {
    pub uuid: u64,
    pub new_amount: u32,
    pub storage_id: u32,
}

/// An item that appeared in a storage.
#[derive(Clone, Copy, Debug)]
pub struct NewStorageItem<D> {
    pub item: Item<D>,
    pub storage_id: u32,
}

/// The answer to moving items into storages.
pub struct MoveToStorageReport<D> {
    pub updated_inventory: Vec<UpdatedInventoryItem>,
    pub new_items: Vec<NewStorageItem<D>>,
    pub updated: Vec<UpdatedItem>,
}

/// The state of a run of move-to-storage requests: the inventory, the uuid
/// counter, the three answer lists and the error that stopped the run.
pub struct ToStorageRun<D> {
    pub inv: InventoryView<D>,
    pub uuid: u64,
    pub updated_inventory: Seq<UpdatedInventoryItem>,
    pub new_items: Seq<NewStorageItem<D>>,
    pub updated: Seq<UpdatedItem>,
    pub error: Option<Error>,
}

/// The item a decrease hands on, the amount it took, the entry that reports
/// it and the new uuid counter: a partial stack gets a fresh uuid, a whole
/// item keeps its own.
pub open spec fn taken_part<D>(change: ChangeItemResult<D>, uuid: u64) -> (Item<D>, u16, u64, u64, u16) {
    match change {
        ChangeItemResult::Changed { uuid: src, new_amount, moved, item } => (
            Item { uuid: (uuid + 1) as u64, id: item.id, data: item.data },
            moved,
            (uuid + 1) as u64,
            src,
            new_amount,
        ),
        ChangeItemResult::Removed { item, amount } => (item, amount, uuid, item.uuid, 0),
        ChangeItemResult::New { item, amount } => (item, amount, uuid, item.uuid, 0),
    }
}

/// One move-to-storage request applied to a run that has not failed.
pub open spec fn to_storage_step<D>(run: ToStorageRun<D>, req: StorageItemRequest) -> ToStorageRun<D> {
    match box_slot(req.storage_id) {
        None => ToStorageRun { error: Some(Error::InvalidInput("move_to_storage")), ..run },
        Some(slot) => match decrease_spec(run.inv.items, req.uuid, req.amount as u16) {
            Err(e) => ToStorageRun { error: Some(e), ..run },
            Ok((items1, change)) => {
                let (item, amount, uuid1, src_uuid, left) = taken_part(change, run.uuid);
                let inv1 = with_items(run.inv, items1);
                let upd = run.updated_inventory.push(
                    UpdatedInventoryItem { uuid: src_uuid, new_amount: left, moved: amount },
                );
                let sid = run.inv.box_ids[slot] as u32;
                match increase_spec(inv1.boxes[slot], item, amount) {
                    Err(e) => ToStorageRun {
                        inv: inv1,
                        uuid: uuid1,
                        updated_inventory: upd,
                        error: Some(e),
                        ..run
                    },
                    Ok((box2, change2)) => {
                        let inv2 = with_box(inv1, slot, box2);
                        match change2 {
                            ChangeItemResult::New { item: added, .. } => ToStorageRun {
                                inv: inv2,
                                uuid: uuid1,
                                updated_inventory: upd,
                                new_items: run.new_items.push(NewStorageItem { item: added, storage_id: sid }),
                                ..run
                            },
                            ChangeItemResult::Changed { uuid: u, new_amount, .. } => ToStorageRun {
                                inv: inv2,
                                uuid: uuid1,
                                updated_inventory: upd,
                                updated: run.updated.push(
                                    UpdatedItem { uuid: u, new_amount: new_amount as u32, storage_id: sid },
                                ),
                                ..run
                            },
                            ChangeItemResult::Removed { .. } => run,
                        }
                    },
                }
            },
        },
    }
}

/// A run of move-to-storage requests, stopping at the first failure.
pub open spec fn to_storage_run<D>(inv: InventoryView<D>, uuid: u64, reqs: Seq<StorageItemRequest>) -> ToStorageRun<D>
    decreases reqs.len(),
{
    if reqs.len() == 0 {
        ToStorageRun {
            inv,
            uuid,
            updated_inventory: Seq::empty(),
            new_items: Seq::empty(),
            updated: Seq::empty(),
            error: None,
        }
    } else {
        let prev = to_storage_run(inv, uuid, reqs.drop_last());
        if prev.error is Some {
            prev
        } else {
            to_storage_step(prev, reqs.last())
        }
    }
}

/// The inventory with the equipped list replaced.
pub open spec fn with_equiped<D>(v: InventoryView<D>, equiped: Seq<u64>) -> InventoryView<D> {
    InventoryView { equiped, ..v }
}

/// The inventory with the carried and stored meseta replaced.
pub open spec fn with_meseta<D>(v: InventoryView<D>, meseta: u64, storage_meseta: u64) -> InventoryView<D> {
    InventoryView { meseta, storage_meseta, ..v }
}

/// The smaller of two amounts.
pub open spec fn min_u64(a: u64, b: u64) -> u64 {
    if a <= b {
        a
    } else {
        b
    }
}

/// For each equipped uuid in order whose item is carried, the item and the
/// uuid's position in the equipped list.
pub open spec fn equiped_entries<D>(items: Seq<Item<D>>, equiped: Seq<u64>) -> Seq<(Item<D>, u32)>
    decreases equiped.len(),
{
    if equiped.len() == 0 {
        Seq::empty()
    } else {
        let prev = equiped_entries(items, equiped.drop_last());
        match find_uuid(items, equiped.last()) {
            Some(p) => prev.push((items[p], (equiped.len() - 1) as u32)),
            None => prev,
        }
    }
}

/// Taking from a stack never loses or makes items: what is taken plus what
/// stays is what the stack held, and a stack that is emptied leaves the list.
pub proof fn law_decrease_conserves<D>(items: Seq<Item<D>>, uuid: u64, amount: u16)
    ensures
        decrease_spec(items, uuid, amount) matches Ok((after, change)) ==> ({
            let p = find_uuid(items, uuid)->0;
            &&& (items[p].data matches ItemData::Consumable { amount: have, .. } ==> (match change {
                ChangeItemResult::Changed { new_amount, moved, .. } => new_amount + moved == have
                    && new_amount > 0 && after.len() == items.len(),
                ChangeItemResult::Removed { amount: taken, .. } => taken == have && after.len() + 1
                    == items.len(),
                ChangeItemResult::New { .. } => false,
            }))
            &&& (items[p].data is Other ==> (change matches ChangeItemResult::Removed { amount: 1, .. })
                && after.len() + 1 == items.len())
        }),
{
}

/// Moving meseta never creates or destroys any: the carried and stored
/// amounts add up to the same total before and after.
pub proof fn law_meseta_conserved(meseta: u64, stored: u64, amount: u64)
    ensures
        (meseta - min_u64(meseta, amount)) + (stored + min_u64(meseta, amount)) == meseta + stored,
        (meseta + min_u64(stored, amount)) + (stored - min_u64(stored, amount)) == meseta + stored,
        meseta - min_u64(meseta, amount) >= 0,
        stored - min_u64(stored, amount) >= 0,
{
}

proof fn lemma_decrease_not_new<D>(items: Seq<Item<D>>, uuid: u64, amount: u16)
    ensures
        decrease_spec(items, uuid, amount) matches Ok((_, c)) ==> !(c is New),
{
}

proof fn lemma_increase_not_removed<D>(items: Seq<Item<D>>, item: Item<D>, amount: u16)
    ensures
        increase_spec(items, item, amount) matches Ok((_, c)) ==> !(c is Removed),
{
}

/// Adding to an existing stack: when the result says a stack changed, the list
/// keeps its length, the stack of the item's kind that was there now holds
/// exactly the reported new amount, which is the old amount plus the amount
/// moved (wrapping at 16 bits), its uuid is the one reported, and every other
/// item is untouched. An added item is appended whole.
pub proof fn law_increase_stack_holds_reported<D>(items: Seq<Item<D>>, item: Item<D>, amount: u16)
    ensures
        increase_spec(items, item, amount) matches Ok((new_items, ChangeItemResult::Changed { uuid, new_amount, moved, .. }))
            ==> exists|pos: int| {
            &&& 0 <= pos < items.len()
            &&& #[trigger] items[pos].id == item.id
            &&& new_items.len() == items.len()
            &&& items[pos].uuid == uuid
            &&& new_items[pos].uuid == uuid
            &&& new_items[pos].id == items[pos].id
            &&& moved == amount
            &&& items[pos].data matches ItemData::Consumable { flags, amount: have }
            &&& new_items[pos].data == (ItemData::<D>::Consumable { flags, amount: new_amount })
            &&& new_amount as int == (have as int + moved as int) % 0x10000
            &&& forall|j: int| 0 <= j < items.len() && j != pos ==> new_items[j] == items[j]
        },
        increase_spec(items, item, amount) matches Ok((new_items, ChangeItemResult::New { item: added, amount: a }))
            ==> new_items == items.push(item) && added == item && a == amount
            && forall|j: int| 0 <= j < items.len() ==> (#[trigger] items[j]).id != item.id,
{
    match find_id(items, item.id) {
        Some(pos) => {
            let p = choose|p: int| #[trigger] is_first_id(items, p, item.id);
            assert(is_first_id(items, p, item.id));
            match items[pos].data {
                ItemData::Consumable { flags, amount: have } => {
                    let total = vstd::wrapping::u16_specs::wrapping_add(have, amount);
                    assert(total as int == (have as int + amount as int) % 0x10000) by {
                        if have as int + amount as int > 0xFFFF {
                            assert(total as int == have as int + amount as int - 0x10000);
                        }
                    }
                    assert(items[pos].id == item.id);
                },
                _ => {},
            }
        },
        None => {
            assert forall|j: int| 0 <= j < items.len() implies (#[trigger] items[j]).id != item.id by {
                if items[j].id == item.id {
                    lemma_first_id_exists(items, item.id, j);
                }
            }
        },
    }
}

proof fn lemma_first_id_exists<D>(items: Seq<Item<D>>, id: ItemId, j: int)
    requires
        0 <= j < items.len(),
        items[j].id == id,
    ensures
        exists|p: int| #[trigger] is_first_id(items, p, id),
    decreases j,
{
    if forall|k: int| 0 <= k < j ==> (#[trigger] items[k]).id != id {
        assert(is_first_id(items, j, id));
    } else {
        let k = choose|k: int| 0 <= k < j && (#[trigger] items[k]).id == id;
        lemma_first_id_exists(items, id, k);
    }
}

proof fn lemma_to_storage_uuid<D>(inv: InventoryView<D>, uuid: u64, reqs: Seq<StorageItemRequest>)
    requires
        uuid + reqs.len() <= u64::MAX,
    ensures
        uuid <= to_storage_run(inv, uuid, reqs).uuid <= uuid + reqs.len(),
    decreases reqs.len(),
{
    if reqs.len() > 0 {
        lemma_to_storage_uuid(inv, uuid, reqs.drop_last());
    }
}

/// A stored item whose amount changed, with the amount moved.
#[derive(Clone, Copy, Debug, PartialEq, Eq, Structural)]
pub struct UpdatedStorageItem {
    pub uuid: u64,
    pub new_amount: u16,
    pub moved: u16,
    pub storage_id: u32,
}

/// An item that appeared in (or grew in) the carried inventory.
#[derive(Clone, Copy, Debug)]
pub struct NewInventoryItem<D> {
    pub item: Item<D>,
    pub amount: u16,
    pub is_new: u16,
}

/// A request to take an amount of an item.
#[derive(Clone, Copy, Debug)]
pub struct UuidAmount {
    pub uuid: u64,
    pub amount: u16,
}

/// The answer to moving items out of storages.
pub struct MoveToInventoryReport<D> {
    pub updated: Vec<UpdatedStorageItem>,
    pub new_items: Vec<NewInventoryItem<D>>,
}

/// The state of a run of move-to-inventory requests.
pub struct ToInventoryRun<D> {
    pub inv: InventoryView<D>,
    pub uuid: u64,
    pub updated: Seq<UpdatedStorageItem>,
    pub new_items: Seq<NewInventoryItem<D>>,
    pub error: Option<Error>,
}

/// One move-to-inventory request applied to a run that has not failed.
pub open spec fn to_inventory_step<D>(run: ToInventoryRun<D>, req: StorageItemRequest) -> ToInventoryRun<D> {
    match box_slot(req.storage_id) {
        None => ToInventoryRun { error: Some(Error::InvalidInput("move_to_inventory")), ..run },
        Some(slot) => match decrease_spec(run.inv.boxes[slot], req.uuid, req.amount as u16) {
            Err(e) => ToInventoryRun { error: Some(e), ..run },
            Ok((box1, change)) => {
                let (item, amount, uuid1, src_uuid, left) = taken_part(change, run.uuid);
                let inv1 = with_box(run.inv, slot, box1);
                let sid = run.inv.box_ids[slot] as u32;
                let upd = run.updated.push(
                    UpdatedStorageItem { uuid: src_uuid, new_amount: left, moved: amount, storage_id: sid },
                );
                match increase_spec(inv1.items, item, amount) {
                    Err(e) => ToInventoryRun { inv: inv1, uuid: uuid1, updated: upd, error: Some(e), ..run },
                    Ok((items2, change2)) => {
                        let inv2 = with_items(inv1, items2);
                        match change2 {
                            ChangeItemResult::New { item: added, amount: a } => ToInventoryRun {
                                inv: inv2,
                                uuid: uuid1,
                                updated: upd,
                                new_items: run.new_items.push(NewInventoryItem { item: added, amount: a, is_new: 1 }),
                                ..run
                            },
                            ChangeItemResult::Changed { new_amount, item: grown, .. } => ToInventoryRun {
                                inv: inv2,
                                uuid: uuid1,
                                updated: upd,
                                new_items: run.new_items.push(
                                    NewInventoryItem { item: grown, amount: new_amount, is_new: 0 },
                                ),
                                ..run
                            },
                            ChangeItemResult::Removed { .. } => run,
                        }
                    },
                }
            },
        },
    }
}

/// A run of move-to-inventory requests, stopping at the first failure.
pub open spec fn to_inventory_run<D>(inv: InventoryView<D>, uuid: u64, reqs: Seq<StorageItemRequest>) -> ToInventoryRun<D>
    decreases reqs.len(),
{
    if reqs.len() == 0 {
        ToInventoryRun { inv, uuid, updated: Seq::empty(), new_items: Seq::empty(), error: None }
    } else {
        let prev = to_inventory_run(inv, uuid, reqs.drop_last());
        if prev.error is Some {
            prev
        } else {
            to_inventory_step(prev, reqs.last())
        }
    }
}

proof fn lemma_to_inventory_stops<D>(inv: InventoryView<D>, uuid: u64, reqs: Seq<StorageItemRequest>, k: int)
    requires
        0 <= k <= reqs.len(),
        to_inventory_run(inv, uuid, reqs.take(k)).error is Some,
    ensures
        to_inventory_run(inv, uuid, reqs) == to_inventory_run(inv, uuid, reqs.take(k)),
    decreases reqs.len(),
{
    if k == reqs.len() {
        assert(reqs.take(k) =~= reqs);
    } else {
        assert(reqs.drop_last().take(k) =~= reqs.take(k));
        lemma_to_inventory_stops(inv, uuid, reqs.drop_last(), k);
    }
}

proof fn lemma_to_inventory_uuid<D>(inv: InventoryView<D>, uuid: u64, reqs: Seq<StorageItemRequest>)
    requires
        uuid + reqs.len() <= u64::MAX,
    ensures
        uuid <= to_inventory_run(inv, uuid, reqs).uuid <= uuid + reqs.len(),
    decreases reqs.len(),
{
    if reqs.len() > 0 {
        lemma_to_inventory_uuid(inv, uuid, reqs.drop_last());
    }
}

/// The answer to moving items between storages.
pub struct MoveStoragesReport<D> {
    pub new_items: Vec<NewStorageItem<D>>,
    pub updated_new: Vec<UpdatedStorageItem>,
    pub updated_old: Vec<UpdatedStorageItem>,
}

/// The state of a run of storage-to-storage moves.
pub struct BetweenStoragesRun<D> {
    pub inv: InventoryView<D>,
    pub uuid: u64,
    pub new_items: Seq<NewStorageItem<D>>,
    pub updated_new: Seq<UpdatedStorageItem>,
    pub updated_old: Seq<UpdatedStorageItem>,
    pub error: Option<Error>,
}

/// One storage-to-storage move applied to a run that has not failed. The
/// source storage is checked and the item taken before the destination is
/// checked, so an unknown destination fails after the item left its source.
pub open spec fn between_step<D>(run: BetweenStoragesRun<D>, old_id: u16, new_id: u16, req: UuidAmount) -> BetweenStoragesRun<D> {
    match box_slot(old_id) {
        None => BetweenStoragesRun { error: Some(Error::InvalidInput("move_storages")), ..run },
        Some(src) => match decrease_spec(run.inv.boxes[src], req.uuid, req.amount) {
            Err(e) => BetweenStoragesRun { error: Some(e), ..run },
            Ok((box1, change)) => {
                let (item, amount, uuid1, src_uuid, left) = taken_part(change, run.uuid);
                let inv1 = with_box(run.inv, src, box1);
                let src_sid = run.inv.box_ids[src] as u32;
                let upd_old = run.updated_old.push(
                    UpdatedStorageItem { uuid: src_uuid, new_amount: left, moved: amount, storage_id: src_sid },
                );
                match box_slot(new_id) {
                    None => BetweenStoragesRun {
                        inv: inv1,
                        uuid: uuid1,
                        updated_old: upd_old,
                        error: Some(Error::InvalidInput("move_storages")),
                        ..run
                    },
                    Some(dst) => {
                        let dst_sid = run.inv.box_ids[dst] as u32;
                        match increase_spec(inv1.boxes[dst], item, amount) {
                            Err(e) => BetweenStoragesRun {
                                inv: inv1,
                                uuid: uuid1,
                                updated_old: upd_old,
                                error: Some(e),
                                ..run
                            },
                            Ok((box2, change2)) => {
                                let inv2 = with_box(inv1, dst, box2);
                                match change2 {
                                    ChangeItemResult::New { item: added, .. } => BetweenStoragesRun {
                                        inv: inv2,
                                        uuid: uuid1,
                                        updated_old: upd_old,
                                        new_items: run.new_items.push(NewStorageItem { item: added, storage_id: dst_sid }),
                                        ..run
                                    },
                                    ChangeItemResult::Changed { uuid: u, new_amount, moved, .. } => BetweenStoragesRun {
                                        inv: inv2,
                                        uuid: uuid1,
                                        updated_old: upd_old,
                                        updated_new: run.updated_new.push(
                                            UpdatedStorageItem { uuid: u, new_amount, moved, storage_id: dst_sid },
                                        ),
                                        ..run
                                    },
                                    ChangeItemResult::Removed { .. } => run,
                                }
                            },
                        }
                    },
                }
            },
        },
    }
}

/// A run of storage-to-storage moves, stopping at the first failure.
pub open spec fn between_run<D>(inv: InventoryView<D>, uuid: u64, old_id: u16, new_id: u16, reqs: Seq<UuidAmount>) -> BetweenStoragesRun<D>
    decreases reqs.len(),
{
    if reqs.len() == 0 {
        BetweenStoragesRun {
            inv,
            uuid,
            new_items: Seq::empty(),
            updated_new: Seq::empty(),
            updated_old: Seq::empty(),
            error: None,
        }
    } else {
        let prev = between_run(inv, uuid, old_id, new_id, reqs.drop_last());
        if prev.error is Some {
            prev
        } else {
            between_step(prev, old_id, new_id, reqs.last())
        }
    }
}

proof fn lemma_between_stops<D>(inv: InventoryView<D>, uuid: u64, old_id: u16, new_id: u16, reqs: Seq<UuidAmount>, k: int)
    requires
        0 <= k <= reqs.len(),
        between_run(inv, uuid, old_id, new_id, reqs.take(k)).error is Some,
    ensures
        between_run(inv, uuid, old_id, new_id, reqs) == between_run(inv, uuid, old_id, new_id, reqs.take(k)),
    decreases reqs.len(),
{
    if k == reqs.len() {
        assert(reqs.take(k) =~= reqs);
    } else {
        assert(reqs.drop_last().take(k) =~= reqs.take(k));
        lemma_between_stops(inv, uuid, old_id, new_id, reqs.drop_last(), k);
    }
}

proof fn lemma_between_uuid<D>(inv: InventoryView<D>, uuid: u64, old_id: u16, new_id: u16, reqs: Seq<UuidAmount>)
    requires
        uuid + reqs.len() <= u64::MAX,
    ensures
        uuid <= between_run(inv, uuid, old_id, new_id, reqs).uuid <= uuid + reqs.len(),
    decreases reqs.len(),
{
    if reqs.len() > 0 {
        lemma_between_uuid(inv, uuid, old_id, new_id, reqs.drop_last());
    }
}

/// The state of a run of discards from the carried inventory.
pub struct DiscardRun<D> {
    pub inv: InventoryView<D>,
    pub updated: Seq<UpdatedInventoryItem>,
    pub error: Option<Error>,
}

/// One discard from the carried inventory.
pub open spec fn discard_inventory_step<D>(run: DiscardRun<D>, req: UuidAmount) -> DiscardRun<D> {
    match decrease_spec(run.inv.items, req.uuid, req.amount) {
        Err(e) => DiscardRun { error: Some(e), ..run },
        Ok((items1, change)) => {
            let entry = match change {
                ChangeItemResult::Changed { new_amount, moved, .. } => UpdatedInventoryItem {
                    uuid: req.uuid,
                    new_amount,
                    moved,
                },
                ChangeItemResult::Removed { amount, .. } => UpdatedInventoryItem {
                    uuid: req.uuid,
                    new_amount: 0,
                    moved: amount,
                },
                ChangeItemResult::New { amount, .. } => UpdatedInventoryItem {
                    uuid: req.uuid,
                    new_amount: 0,
                    moved: amount,
                },
            };
            DiscardRun { inv: with_items(run.inv, items1), updated: run.updated.push(entry), error: None }
        },
    }
}

/// A run of discards from the carried inventory, stopping at the first failure.
pub open spec fn discard_inventory_run<D>(inv: InventoryView<D>, reqs: Seq<UuidAmount>) -> DiscardRun<D>
    decreases reqs.len(),
{
    if reqs.len() == 0 {
        DiscardRun { inv, updated: Seq::empty(), error: None }
    } else {
        let prev = discard_inventory_run(inv, reqs.drop_last());
        if prev.error is Some {
            prev
        } else {
            discard_inventory_step(prev, reqs.last())
        }
    }
}

proof fn lemma_discard_inventory_stops<D>(inv: InventoryView<D>, reqs: Seq<UuidAmount>, k: int)
    requires
        0 <= k <= reqs.len(),
        discard_inventory_run(inv, reqs.take(k)).error is Some,
    ensures
        discard_inventory_run(inv, reqs) == discard_inventory_run(inv, reqs.take(k)),
    decreases reqs.len(),
{
    if k == reqs.len() {
        assert(reqs.take(k) =~= reqs);
    } else {
        assert(reqs.drop_last().take(k) =~= reqs.take(k));
        lemma_discard_inventory_stops(inv, reqs.drop_last(), k);
    }
}

/// The state of a run of discards from storages.
pub struct DiscardStorageRun<D> {
    pub inv: InventoryView<D>,
    pub updated: Seq<UpdatedStorageItem>,
    pub error: Option<Error>,
}

/// One discard from a storage.
pub open spec fn discard_storage_step<D>(run: DiscardStorageRun<D>, req: StorageItemRequest) -> DiscardStorageRun<D> {
    match box_slot(req.storage_id) {
        None => DiscardStorageRun { error: Some(Error::InvalidInput("discard_storage")), ..run },
        Some(slot) => match decrease_spec(run.inv.boxes[slot], req.uuid, req.amount as u16) {
            Err(e) => DiscardStorageRun { error: Some(e), ..run },
            Ok((box1, change)) => {
                let sid = run.inv.box_ids[slot] as u32;
                let entry = match change {
                    ChangeItemResult::Changed { new_amount, moved, .. } => UpdatedStorageItem {
                        uuid: req.uuid,
                        new_amount,
                        moved,
                        storage_id: sid,
                    },
                    ChangeItemResult::Removed { amount, .. } => UpdatedStorageItem {
                        uuid: req.uuid,
                        new_amount: 0,
                        moved: amount,
                        storage_id: sid,
                    },
                    ChangeItemResult::New { amount, .. } => UpdatedStorageItem {
                        uuid: req.uuid,
                        new_amount: 0,
                        moved: amount,
                        storage_id: sid,
                    },
                };
                DiscardStorageRun { inv: with_box(run.inv, slot, box1), updated: run.updated.push(entry), error: None }
            },
        },
    }
}

/// A run of discards from storages, stopping at the first failure.
pub open spec fn discard_storage_run<D>(inv: InventoryView<D>, reqs: Seq<StorageItemRequest>) -> DiscardStorageRun<D>
    decreases reqs.len(),
{
    if reqs.len() == 0 {
        DiscardStorageRun { inv, updated: Seq::empty(), error: None }
    } else {
        let prev = discard_storage_run(inv, reqs.drop_last());
        if prev.error is Some {
            prev
        } else {
            discard_storage_step(prev, reqs.last())
        }
    }
}

proof fn lemma_discard_storage_stops<D>(inv: InventoryView<D>, reqs: Seq<StorageItemRequest>, k: int)
    requires
        0 <= k <= reqs.len(),
        discard_storage_run(inv, reqs.take(k)).error is Some,
    ensures
        discard_storage_run(inv, reqs) == discard_storage_run(inv, reqs.take(k)),
    decreases reqs.len(),
{
    if k == reqs.len() {
        assert(reqs.take(k) =~= reqs);
    } else {
        assert(reqs.drop_last().take(k) =~= reqs.take(k));
        lemma_discard_storage_stops(inv, reqs.drop_last(), k);
    }
}

proof fn lemma_to_storage_stops<D>(inv: InventoryView<D>, uuid: u64, reqs: Seq<StorageItemRequest>, k: int)
    requires
        0 <= k <= reqs.len(),
        to_storage_run(inv, uuid, reqs.take(k)).error is Some,
    ensures
        to_storage_run(inv, uuid, reqs) == to_storage_run(inv, uuid, reqs.take(k)),
    decreases reqs.len(),
{
    if k == reqs.len() {
        assert(reqs.take(k) =~= reqs);
    } else {
        assert(reqs.drop_last().take(k) =~= reqs.take(k));
        lemma_to_storage_stops(inv, uuid, reqs.drop_last(), k);
    }
}

impl<D: Copy> Inventory<D> {
    /// Whether the storage boxes are the four expected ones.
    fn select_box_increase(&mut self, slot: usize, item: Item<D>, amount: u16) -> (r: Result<ChangeItemResult<D>, Error>)
        requires
            slot < 4,
        ensures
            final(self).fixed() == old(self).fixed(),
            match increase_spec(old(self)@.boxes[slot as int], item, amount) {
                Ok((b, c)) => r == Ok::<ChangeItemResult<D>, Error>(c) && final(self)@ == with_box(old(self)@, slot as int, b),
                Err(e) => r == Err::<ChangeItemResult<D>, Error>(e) && final(self)@ == old(self)@,
            },
    {
        let r = if slot == 0 {
            increase_item(&mut self.storages.default.items, item, amount)
        } else if slot == 1 {
            increase_item(&mut self.storages.premium.items, item, amount)
        } else if slot == 2 {
            increase_item(&mut self.storages.extend1.items, item, amount)
        } else {
            increase_item(&mut self.character.items, item, amount)
        };
        proof {
            assert(final(self)@.boxes =~= match increase_spec(old(self)@.boxes[slot as int], item, amount) {
                Ok((b, c)) => old(self)@.boxes.update(slot as int, b),
                Err(e) => old(self)@.boxes,
            });
        }
        r
    }

    /// The storage id recorded in slot `slot`.
    fn box_id(&self, slot: usize) -> (r: u8)
        requires
            slot < 4,
        ensures
            r == self@.box_ids[slot as int],
    {
        if slot == 0 {
            self.storages.default.storage_id
        } else if slot == 1 {
            self.storages.premium.storage_id
        } else if slot == 2 {
            self.storages.extend1.storage_id
        } else {
            self.character.storage_id
        }
    }

    /// Moves carried items into storages, request by request: each request
    /// takes an amount off a carried item and adds it to the storage it names.
    /// The first failing request stops the run; what the requests before it
    /// did stays done.
    pub fn move_to_storage(&mut self, reqs: &Vec<StorageItemRequest>, new_uuid: &mut u64) -> (r: Result<MoveToStorageReport<D>, Error>)
        requires
            *old(new_uuid) + reqs@.len() <= u64::MAX,
        ensures
            final(self).fixed() == old(self).fixed(),
            ({
                let run = to_storage_run(old(self)@, *old(new_uuid), reqs@);
                &&& final(self)@ == run.inv
                &&& *final(new_uuid) == run.uuid
                &&& match run.error {
                    Some(e) => r matches Err(re) && re == e,
                    None => r matches Ok(rep) && rep.updated_inventory@ == run.updated_inventory
                        && rep.new_items@ == run.new_items && rep.updated@ == run.updated,
                }
            }),
    {
        let mut updated_inventory: Vec<UpdatedInventoryItem> = Vec::new();
        let mut new_items: Vec<NewStorageItem<D>> = Vec::new();
        let mut updated: Vec<UpdatedItem> = Vec::new();
        let ghost start = self@;
        let ghost u0 = *new_uuid;
        let n = reqs.len();
        let mut i: usize = 0;
        while i < n
            invariant
                self.fixed() == old(self).fixed(),
                n == reqs@.len(),
                i <= n,
                u0 + n <= u64::MAX,
                start == old(self)@,
                u0 == *old(new_uuid),
                ({
                    let run = to_storage_run(start, u0, reqs@.take(i as int));
                    &&& run.error is None
                    &&& self@ == run.inv
                    &&& *new_uuid == run.uuid
                    &&& updated_inventory@ == run.updated_inventory
                    &&& new_items@ == run.new_items
                    &&& updated@ == run.updated
                }),
            decreases n - i,
        {
            let req = reqs[i];
            proof {
                assert(reqs@.take(i + 1).drop_last() =~= reqs@.take(i as int));
                assert(reqs@.take(i + 1).last() == req);
                lemma_to_storage_uuid(start, u0, reqs@.take(i as int));
            }
            let slot: usize = if req.storage_id == 0 {
                0
            } else if req.storage_id == 1 {
                1
            } else if req.storage_id == 2 {
                2
            } else if req.storage_id == 14 {
                3
            } else {
                proof {
                    lemma_to_storage_stops(start, u0, reqs@, i + 1);
                }
                return Err(Error::InvalidInput("move_to_storage"));
            };
            let change = match decrease_item(&mut self.inventory.items, req.uuid, req.amount as u16) {
                Ok(c) => c,
                Err(e) => {
                    proof {
                        lemma_to_storage_stops(start, u0, reqs@, i + 1);
                    }
                    return Err(e);
                },
            };
            proof {
                lemma_decrease_not_new(old(self).inventory.items@, req.uuid, req.amount as u16);
            }
            let (item, amount) = match change {
                ChangeItemResult::Changed { uuid, new_amount, moved, item } => {
                    updated_inventory.push(UpdatedInventoryItem { uuid, new_amount, moved });
                    *new_uuid = *new_uuid + 1;
                    let fresh = Item { uuid: *new_uuid, id: item.id, data: item.data };
                    (fresh, moved)
                },
                ChangeItemResult::Removed { item, amount } => {
                    updated_inventory.push(UpdatedInventoryItem { uuid: item.uuid, new_amount: 0, moved: amount });
                    (item, amount)
                },
                ChangeItemResult::New { item, amount } => {
                    proof {
                        assert(false);
                    }
                    (item, amount)
                },
            };
            let sid = self.box_id(slot) as u32;
            match self.select_box_increase(slot, item, amount) {
                Err(e) => {
                    proof {
                        lemma_to_storage_stops(start, u0, reqs@, i + 1);
                    }
                    return Err(e);
                },
                Ok(ChangeItemResult::Changed { uuid, new_amount, .. }) => {
                    updated.push(UpdatedItem { uuid, new_amount: new_amount as u32, storage_id: sid });
                },
                Ok(ChangeItemResult::New { item, .. }) => {
                    new_items.push(NewStorageItem { item, storage_id: sid });
                },
                Ok(ChangeItemResult::Removed { .. }) => {
                    proof {
                        assert(false);
                    }
                },
            }
            i = i + 1;
        }
        proof {
            assert(reqs@.take(n as int) =~= reqs@);
        }
        Ok(MoveToStorageReport { updated_inventory, new_items, updated })
    }

    fn select_box_decrease(&mut self, slot: usize, uuid: u64, amount: u16) -> (r: Result<ChangeItemResult<D>, Error>)
        requires
            slot < 4,
        ensures
            final(self).fixed() == old(self).fixed(),
            match decrease_spec(old(self)@.boxes[slot as int], uuid, amount) {
                Ok((b, c)) => r == Ok::<ChangeItemResult<D>, Error>(c) && final(self)@ == with_box(old(self)@, slot as int, b),
                Err(e) => r == Err::<ChangeItemResult<D>, Error>(e) && final(self)@ == old(self)@,
            },
    {
        let r = if slot == 0 {
            decrease_item(&mut self.storages.default.items, uuid, amount)
        } else if slot == 1 {
            decrease_item(&mut self.storages.premium.items, uuid, amount)
        } else if slot == 2 {
            decrease_item(&mut self.storages.extend1.items, uuid, amount)
        } else {
            decrease_item(&mut self.character.items, uuid, amount)
        };
        proof {
            assert(final(self)@.boxes =~= match decrease_spec(old(self)@.boxes[slot as int], uuid, amount) {
                Ok((b, c)) => old(self)@.boxes.update(slot as int, b),
                Err(e) => old(self)@.boxes,
            });
        }
        r
    }

    /// Moves stored items into the carried inventory, request by request: each
    /// request takes an amount off an item of the storage it names and adds it
    /// to the inventory. The first failing request stops the run; what the
    /// requests before it did stays done.
    pub fn move_to_inventory(&mut self, reqs: &Vec<StorageItemRequest>, new_uuid: &mut u64) -> (r: Result<MoveToInventoryReport<D>, Error>)
        requires
            *old(new_uuid) + reqs@.len() <= u64::MAX,
        ensures
            final(self).fixed() == old(self).fixed(),
            ({
                let run = to_inventory_run(old(self)@, *old(new_uuid), reqs@);
                &&& final(self)@ == run.inv
                &&& *final(new_uuid) == run.uuid
                &&& match run.error {
                    Some(e) => r matches Err(re) && re == e,
                    None => r matches Ok(rep) && rep.updated@ == run.updated && rep.new_items@ == run.new_items,
                }
            }),
    {
        let mut updated: Vec<UpdatedStorageItem> = Vec::new();
        let mut new_items: Vec<NewInventoryItem<D>> = Vec::new();
        let ghost start = self@;
        let ghost u0 = *new_uuid;
        let n = reqs.len();
        let mut i: usize = 0;
        while i < n
            invariant
                self.fixed() == old(self).fixed(),
                n == reqs@.len(),
                i <= n,
                u0 + n <= u64::MAX,
                start == old(self)@,
                u0 == *old(new_uuid),
                ({
                    let run = to_inventory_run(start, u0, reqs@.take(i as int));
                    &&& run.error is None
                    &&& self@ == run.inv
                    &&& *new_uuid == run.uuid
                    &&& updated@ == run.updated
                    &&& new_items@ == run.new_items
                }),
            decreases n - i,
        {
            let req = reqs[i];
            proof {
                assert(reqs@.take(i + 1).drop_last() =~= reqs@.take(i as int));
                assert(reqs@.take(i + 1).last() == req);
                lemma_to_inventory_uuid(start, u0, reqs@.take(i as int));
            }
            let slot: usize = if req.storage_id == 0 {
                0
            } else if req.storage_id == 1 {
                1
            } else if req.storage_id == 2 {
                2
            } else if req.storage_id == 14 {
                3
            } else {
                proof {
                    lemma_to_inventory_stops(start, u0, reqs@, i + 1);
                }
                return Err(Error::InvalidInput("move_to_inventory"));
            };
            let sid = self.box_id(slot) as u32;
            let ghost before = self@;
            let change = match self.select_box_decrease(slot, req.uuid, req.amount as u16) {
                Ok(c) => c,
                Err(e) => {
                    proof {
                        lemma_to_inventory_stops(start, u0, reqs@, i + 1);
                    }
                    return Err(e);
                },
            };
            proof {
                lemma_decrease_not_new(before.boxes[slot as int], req.uuid, req.amount as u16);
            }
            let (item, amount) = match change {
                ChangeItemResult::Changed { uuid, new_amount, moved, item } => {
                    updated.push(UpdatedStorageItem { uuid, new_amount, moved, storage_id: sid });
                    *new_uuid = *new_uuid + 1;
                    let fresh = Item { uuid: *new_uuid, id: item.id, data: item.data };
                    (fresh, moved)
                },
                ChangeItemResult::Removed { item, amount } => {
                    updated.push(UpdatedStorageItem { uuid: item.uuid, new_amount: 0, moved: amount, storage_id: sid });
                    (item, amount)
                },
                ChangeItemResult::New { item, amount } => {
                    proof {
                        assert(false);
                    }
                    (item, amount)
                },
            };
            let ghost before_inc = self.inventory.items@;
            match increase_item(&mut self.inventory.items, item, amount) {
                Err(e) => {
                    proof {
                        lemma_to_inventory_stops(start, u0, reqs@, i + 1);
                    }
                    return Err(e);
                },
                Ok(ChangeItemResult::Changed { new_amount, item, .. }) => {
                    new_items.push(NewInventoryItem { item, amount: new_amount, is_new: 0 });
                },
                Ok(ChangeItemResult::New { item, amount }) => {
                    new_items.push(NewInventoryItem { item, amount, is_new: 1 });
                },
                Ok(ChangeItemResult::Removed { .. }) => {
                    proof {
                        lemma_increase_not_removed(before_inc, item, amount);
                        assert(false);
                    }
                },
            }
            i = i + 1;
        }
        proof {
            assert(reqs@.take(n as int) =~= reqs@);
        }
        Ok(MoveToInventoryReport { updated, new_items })
    }

    /// Moves items from the storage `old_id` to the storage `new_id`, request
    /// by request. The first failing request stops the run; what the requests
    /// before it did stays done.
    pub fn move_storages(&mut self, old_id: u16, new_id: u16, reqs: &Vec<UuidAmount>, new_uuid: &mut u64) -> (r: Result<MoveStoragesReport<D>, Error>)
        requires
            *old(new_uuid) + reqs@.len() <= u64::MAX,
        ensures
            final(self).fixed() == old(self).fixed(),
            ({
                let run = between_run(old(self)@, *old(new_uuid), old_id, new_id, reqs@);
                &&& final(self)@ == run.inv
                &&& *final(new_uuid) == run.uuid
                &&& match run.error {
                    Some(e) => r matches Err(re) && re == e,
                    None => r matches Ok(rep) && rep.new_items@ == run.new_items
                        && rep.updated_new@ == run.updated_new && rep.updated_old@ == run.updated_old,
                }
            }),
    {
        let mut new_items: Vec<NewStorageItem<D>> = Vec::new();
        let mut updated_new: Vec<UpdatedStorageItem> = Vec::new();
        let mut updated_old: Vec<UpdatedStorageItem> = Vec::new();
        let ghost start = self@;
        let ghost u0 = *new_uuid;
        let n = reqs.len();
        let mut i: usize = 0;
        while i < n
            invariant
                self.fixed() == old(self).fixed(),
                n == reqs@.len(),
                i <= n,
                u0 + n <= u64::MAX,
                start == old(self)@,
                u0 == *old(new_uuid),
                ({
                    let run = between_run(start, u0, old_id, new_id, reqs@.take(i as int));
                    &&& run.error is None
                    &&& self@ == run.inv
                    &&& *new_uuid == run.uuid
                    &&& new_items@ == run.new_items
                    &&& updated_new@ == run.updated_new
                    &&& updated_old@ == run.updated_old
                }),
            decreases n - i,
        {
            let req = reqs[i];
            proof {
                assert(reqs@.take(i + 1).drop_last() =~= reqs@.take(i as int));
                assert(reqs@.take(i + 1).last() == req);
                lemma_between_uuid(start, u0, old_id, new_id, reqs@.take(i as int));
            }
            let src: usize = if old_id == 0 {
                0
            } else if old_id == 1 {
                1
            } else if old_id == 2 {
                2
            } else if old_id == 14 {
                3
            } else {
                proof {
                    lemma_between_stops(start, u0, old_id, new_id, reqs@, i + 1);
                }
                return Err(Error::InvalidInput("move_storages"));
            };
            let src_sid = self.box_id(src) as u32;
            let ghost before = self@;
            let change = match self.select_box_decrease(src, req.uuid, req.amount) {
                Ok(c) => c,
                Err(e) => {
                    proof {
                        lemma_between_stops(start, u0, old_id, new_id, reqs@, i + 1);
                    }
                    return Err(e);
                },
            };
            proof {
                lemma_decrease_not_new(before.boxes[src as int], req.uuid, req.amount);
            }
            let (item, amount) = match change {
                ChangeItemResult::Changed { uuid, new_amount, moved, item } => {
                    updated_old.push(UpdatedStorageItem { uuid, new_amount, moved, storage_id: src_sid });
                    *new_uuid = *new_uuid + 1;
                    let fresh = Item { uuid: *new_uuid, id: item.id, data: item.data };
                    (fresh, moved)
                },
                ChangeItemResult::Removed { item, amount } => {
                    updated_old.push(UpdatedStorageItem { uuid: item.uuid, new_amount: 0, moved: amount, storage_id: src_sid });
                    (item, amount)
                },
                ChangeItemResult::New { item, amount } => {
                    proof {
                        assert(false);
                    }
                    (item, amount)
                },
            };
            let dst: usize = if new_id == 0 {
                0
            } else if new_id == 1 {
                1
            } else if new_id == 2 {
                2
            } else if new_id == 14 {
                3
            } else {
                proof {
                    lemma_between_stops(start, u0, old_id, new_id, reqs@, i + 1);
                }
                return Err(Error::InvalidInput("move_storages"));
            };
            let dst_sid = self.box_id(dst) as u32;
            let ghost before_inc = self@;
            match self.select_box_increase(dst, item, amount) {
                Err(e) => {
                    proof {
                        lemma_between_stops(start, u0, old_id, new_id, reqs@, i + 1);
                    }
                    return Err(e);
                },
                Ok(ChangeItemResult::Changed { new_amount, uuid, moved, .. }) => {
                    updated_new.push(UpdatedStorageItem { uuid, new_amount, moved, storage_id: dst_sid });
                },
                Ok(ChangeItemResult::New { item, .. }) => {
                    new_items.push(NewStorageItem { item, storage_id: dst_sid });
                },
                Ok(ChangeItemResult::Removed { .. }) => {
                    proof {
                        lemma_increase_not_removed(before_inc.boxes[dst as int], item, amount);
                        assert(false);
                    }
                },
            }
            i = i + 1;
        }
        proof {
            assert(reqs@.take(n as int) =~= reqs@);
        }
        Ok(MoveStoragesReport { new_items, updated_new, updated_old })
    }

    /// Discards carried items, request by request. The first failing request
    /// stops the run; what the requests before it did stays done.
    pub fn discard_inventory(&mut self, reqs: &Vec<UuidAmount>) -> (r: Result<Vec<UpdatedInventoryItem>, Error>)
        ensures
            final(self).fixed() == old(self).fixed(),
            ({
                let run = discard_inventory_run(old(self)@, reqs@);
                &&& final(self)@ == run.inv
                &&& match run.error {
                    Some(e) => r matches Err(re) && re == e,
                    None => r matches Ok(rep) && rep@ == run.updated,
                }
            }),
    {
        let mut updated: Vec<UpdatedInventoryItem> = Vec::new();
        let ghost start = self@;
        let n = reqs.len();
        let mut i: usize = 0;
        while i < n
            invariant
                self.fixed() == old(self).fixed(),
                n == reqs@.len(),
                i <= n,
                start == old(self)@,
                ({
                    let run = discard_inventory_run(start, reqs@.take(i as int));
                    &&& run.error is None
                    &&& self@ == run.inv
                    &&& updated@ == run.updated
                }),
            decreases n - i,
        {
            let req = reqs[i];
            proof {
                assert(reqs@.take(i + 1).drop_last() =~= reqs@.take(i as int));
                assert(reqs@.take(i + 1).last() == req);
            }
            match decrease_item(&mut self.inventory.items, req.uuid, req.amount) {
                Err(e) => {
                    proof {
                        lemma_discard_inventory_stops(start, reqs@, i + 1);
                    }
                    return Err(e);
                },
                Ok(ChangeItemResult::Changed { new_amount, moved, .. }) => {
                    updated.push(UpdatedInventoryItem { uuid: req.uuid, new_amount, moved });
                },
                Ok(ChangeItemResult::Removed { amount, .. }) => {
                    updated.push(UpdatedInventoryItem { uuid: req.uuid, new_amount: 0, moved: amount });
                },
                Ok(ChangeItemResult::New { amount, .. }) => {
                    updated.push(UpdatedInventoryItem { uuid: req.uuid, new_amount: 0, moved: amount });
                },
            }
            i = i + 1;
        }
        proof {
            assert(reqs@.take(n as int) =~= reqs@);
        }
        Ok(updated)
    }

    /// Discards stored items, request by request. The first failing request
    /// stops the run; what the requests before it did stays done.
    pub fn discard_storage(&mut self, reqs: &Vec<StorageItemRequest>) -> (r: Result<Vec<UpdatedStorageItem>, Error>)
        ensures
            final(self).fixed() == old(self).fixed(),
            ({
                let run = discard_storage_run(old(self)@, reqs@);
                &&& final(self)@ == run.inv
                &&& match run.error {
                    Some(e) => r matches Err(re) && re == e,
                    None => r matches Ok(rep) && rep@ == run.updated,
                }
            }),
    {
        let mut updated: Vec<UpdatedStorageItem> = Vec::new();
        let ghost start = self@;
        let n = reqs.len();
        let mut i: usize = 0;
        while i < n
            invariant
                self.fixed() == old(self).fixed(),
                n == reqs@.len(),
                i <= n,
                start == old(self)@,
                ({
                    let run = discard_storage_run(start, reqs@.take(i as int));
                    &&& run.error is None
                    &&& self@ == run.inv
                    &&& updated@ == run.updated
                }),
            decreases n - i,
        {
            let req = reqs[i];
            proof {
                assert(reqs@.take(i + 1).drop_last() =~= reqs@.take(i as int));
                assert(reqs@.take(i + 1).last() == req);
            }
            let slot: usize = if req.storage_id == 0 {
                0
            } else if req.storage_id == 1 {
                1
            } else if req.storage_id == 2 {
                2
            } else if req.storage_id == 14 {
                3
            } else {
                proof {
                    lemma_discard_storage_stops(start, reqs@, i + 1);
                }
                return Err(Error::InvalidInput("discard_storage"));
            };
            let sid = self.box_id(slot) as u32;
            match self.select_box_decrease(slot, req.uuid, req.amount as u16) {
                Err(e) => {
                    proof {
                        lemma_discard_storage_stops(start, reqs@, i + 1);
                    }
                    return Err(e);
                },
                Ok(ChangeItemResult::Changed { new_amount, moved, .. }) => {
                    updated.push(UpdatedStorageItem { uuid: req.uuid, new_amount, moved, storage_id: sid });
                },
                Ok(ChangeItemResult::Removed { amount, .. }) => {
                    updated.push(UpdatedStorageItem { uuid: req.uuid, new_amount: 0, moved: amount, storage_id: sid });
                },
                Ok(ChangeItemResult::New { amount, .. }) => {
                    updated.push(UpdatedStorageItem { uuid: req.uuid, new_amount: 0, moved: amount, storage_id: sid });
                },
            }
            i = i + 1;
        }
        proof {
            assert(reqs@.take(n as int) =~= reqs@);
        }
        Ok(updated)
    }

    /// Equips the carried item `uuid`; equipping an equipped item does nothing,
    /// and an item that is not carried is refused.
    pub fn equip_item(&mut self, uuid: u64) -> (r: Result<(), Error>)
        ensures
            final(self).fixed() == old(self).fixed(),
            old(self)@.equiped.contains(uuid) ==> r is Ok && final(self)@ == old(self)@,
            !old(self)@.equiped.contains(uuid) && find_uuid(old(self)@.items, uuid) is Some ==> r is Ok
                && final(self)@ == with_equiped(old(self)@, old(self)@.equiped.push(uuid)),
            !old(self)@.equiped.contains(uuid) && find_uuid(old(self)@.items, uuid) is None ==> (r
                matches Err(Error::InvalidInput(m)) && m == "equip_item") && final(self)@ == old(self)@,
    {
        let mut i: usize = 0;
        while i < self.inventory.equiped.len()
            invariant
                self.fixed() == old(self).fixed(),
                i <= self.inventory.equiped@.len(),
                forall|j: int| 0 <= j < i ==> self.inventory.equiped@[j] != uuid,
            decreases self.inventory.equiped@.len() - i,
        {
            if self.inventory.equiped[i] == uuid {
                proof {
                    assert(self.inventory.equiped@[i as int] == uuid);
                }
                return Ok(());
            }
            i = i + 1;
        }
        match position_of_uuid(&self.inventory.items, uuid) {
            None => Err(Error::InvalidInput("equip_item")),
            Some(_) => {
                self.inventory.equiped.push(uuid);
                Ok(())
            },
        }
    }

    /// Unequips `uuid`: its first occurrence leaves the equipped list, the
    /// others keeping their order; a uuid that is not equipped is refused.
    pub fn unequip_item(&mut self, uuid: u64) -> (r: Result<(), Error>)
        ensures
            final(self).fixed() == old(self).fixed(),
            !old(self)@.equiped.contains(uuid) ==> (r matches Err(Error::InvalidInput(m)) && m
                == "unequip_item") && final(self)@ == old(self)@,
            old(self)@.equiped.contains(uuid) ==> r is Ok && exists|p: int|
                0 <= p < old(self)@.equiped.len() && old(self)@.equiped[p] == uuid && (forall|j: int|
                    0 <= j < p ==> old(self)@.equiped[j] != uuid) && final(self)@ == with_equiped(
                    old(self)@,
                    old(self)@.equiped.remove(p),
                ),
    {
        let mut i: usize = 0;
        while i < self.inventory.equiped.len()
            invariant
                self.fixed() == old(self).fixed(),
                i <= self.inventory.equiped@.len(),
                self@ == old(self)@,
                forall|j: int| 0 <= j < i ==> self.inventory.equiped@[j] != uuid,
            decreases self.inventory.equiped@.len() - i,
        {
            if self.inventory.equiped[i] == uuid {
                self.inventory.equiped.remove(i);
                proof {
                    assert(old(self)@.equiped[i as int] == uuid);
                }
                return Ok(());
            }
            i = i + 1;
        }
        Err(Error::InvalidInput("unequip_item"))
    }

    /// The carried item `uuid`.
    pub fn get_inv_item(&self, uuid: u64) -> (r: Result<Item<D>, Error>)
        ensures
            find_uuid(self@.items, uuid) matches Some(p) ==> r == Ok::<Item<D>, Error>(self@.items[p]),
            find_uuid(self@.items, uuid) is None ==> (r matches Err(Error::InvalidInput(m)) && m
                == "get_inv_item"),
    {
        match position_of_uuid(&self.inventory.items, uuid) {
            Some(p) => Ok(self.inventory.items[p]),
            None => Err(Error::InvalidInput("get_inv_item")),
        }
    }

    /// Moves up to `amount` meseta between the carried purse and the storage;
    /// returns the new carried and stored amounts.
    pub fn move_meseta(&mut self, to_storage: bool, amount: u64) -> (r: (u64, u64))
        requires
            to_storage ==> old(self)@.storage_meseta + min_u64(old(self)@.meseta, amount) <= u64::MAX,
            !to_storage ==> old(self)@.meseta + min_u64(old(self)@.storage_meseta, amount) <= u64::MAX,
        ensures
            final(self).fixed() == old(self).fixed(),
            to_storage ==> final(self)@ == with_meseta(
                old(self)@,
                (old(self)@.meseta - min_u64(old(self)@.meseta, amount)) as u64,
                (old(self)@.storage_meseta + min_u64(old(self)@.meseta, amount)) as u64,
            ),
            !to_storage ==> final(self)@ == with_meseta(
                old(self)@,
                (old(self)@.meseta + min_u64(old(self)@.storage_meseta, amount)) as u64,
                (old(self)@.storage_meseta - min_u64(old(self)@.storage_meseta, amount)) as u64,
            ),
            r == (final(self)@.meseta, final(self)@.storage_meseta),
    {
        if to_storage {
            let to_move = if self.inventory.meseta <= amount { self.inventory.meseta } else { amount };
            self.storages.storage_meseta = self.storages.storage_meseta + to_move;
            self.inventory.meseta = self.inventory.meseta - to_move;
        } else {
            let to_move = if self.storages.storage_meseta <= amount { self.storages.storage_meseta } else { amount };
            self.inventory.meseta = self.inventory.meseta + to_move;
            self.storages.storage_meseta = self.storages.storage_meseta - to_move;
        }
        (self.inventory.meseta, self.storages.storage_meseta)
    }

    /// What the client is sent of the storages: the stored items of the
    /// character's own storage, the default, the premium and the first
    /// extension storage, one after the other, and the description of each
    /// of these boxes in the same order.
    pub fn storage_summary(&self) -> (r: (Vec<Item<D>>, Vec<StorageInfo>))
        ensures
            r.0@ == self.character.items@ + self.storages.default.items@ + self.storages.premium.items@
                + self.storages.extend1.items@,
            r.1@ == seq![
                self.character.generate_info_spec(),
                self.storages.default.generate_info_spec(),
                self.storages.premium.generate_info_spec(),
                self.storages.extend1.generate_info_spec(),
            ],
    {
        let mut items: Vec<Item<D>> = Vec::new();
        append_items(&mut items, &self.character.items);
        append_items(&mut items, &self.storages.default.items);
        append_items(&mut items, &self.storages.premium.items);
        append_items(&mut items, &self.storages.extend1.items);
        let mut infos: Vec<StorageInfo> = Vec::new();
        infos.push(self.character.generate_info());
        infos.push(self.storages.default.generate_info());
        infos.push(self.storages.premium.generate_info());
        infos.push(self.storages.extend1.generate_info());
        proof {
            assert(infos@ =~= seq![
                self.character.generate_info_spec(),
                self.storages.default.generate_info_spec(),
                self.storages.premium.generate_info_spec(),
                self.storages.extend1.generate_info_spec(),
            ]);
        }
        (items, infos)
    }

    /// The equipped items that are carried, each with its position in the
    /// equipped list.
    pub fn send_equiped(&self) -> (r: Vec<(Item<D>, u32)>)
        requires
            self@.equiped.len() <= u32::MAX,
        ensures
            r@ == equiped_entries(self@.items, self@.equiped),
    {
        let mut out: Vec<(Item<D>, u32)> = Vec::new();
        let n = self.inventory.equiped.len();
        let mut i: usize = 0;
        while i < n
            invariant
                n == self@.equiped.len(),
                n <= u32::MAX,
                i <= n,
                out@ == equiped_entries(self@.items, self@.equiped.take(i as int)),
            decreases n - i,
        {
            proof {
                assert(self@.equiped.take(i + 1).drop_last() =~= self@.equiped.take(i as int));
            }
            let uuid = self.inventory.equiped[i];
            match position_of_uuid(&self.inventory.items, uuid) {
                Some(p) => {
                    out.push((self.inventory.items[p], i as u32));
                },
                None => {},
            }
            i = i + 1;
        }
        proof {
            assert(self@.equiped.take(n as int) =~= self@.equiped);
        }
        out
    }
}

/// The display names of an item kind.
pub struct ItemName {
    pub id: ItemId,
    pub en_name: String,
    pub jp_name: String,
}

/// An item kind with the name the client shows for it.
pub struct NamedId {
    pub name: String,
    pub id: ItemId,
}

/// `pos` is the first entry of `names` for kind `id`.
pub open spec fn is_first_name(names: Seq<ItemName>, pos: int, id: ItemId) -> bool {
    &&& 0 <= pos < names.len()
    &&& names[pos].id == id
    &&& forall|j: int| 0 <= j < pos ==> (#[trigger] names[j]).id != id
}

/// The first name entry of kind `id`, if any.
pub open spec fn find_name(names: Seq<ItemName>, id: ItemId) -> Option<int> {
    if exists|p: int| #[trigger] is_first_name(names, p, id) {
        Some(choose|p: int| #[trigger] is_first_name(names, p, id))
    } else {
        None
    }
}

/// The name of entry `n` in the chosen language.
pub open spec fn name_in(n: ItemName, english: bool) -> Seq<char> {
    if english {
        n.en_name@
    } else {
        n.jp_name@
    }
}

/// Loading the names of `items`: each kind not yet in `loaded` is added to
/// it, and, when it has a name entry, listed with its name. The new loaded
/// list and the listed (name, kind) pairs.
pub open spec fn load_names(loaded: Seq<ItemId>, items: Seq<ItemId>, names: Seq<ItemName>, english: bool) -> (Seq<ItemId>, Seq<(Seq<char>, ItemId)>)
    decreases items.len(),
{
    if items.len() == 0 {
        (loaded, Seq::empty())
    } else {
        let (l, out) = load_names(loaded, items.drop_last(), names, english);
        let id = items.last();
        if l.contains(id) {
            (l, out)
        } else {
            match find_name(names, id) {
                Some(p) => (l.push(id), out.push((name_in(names[p], english), id))),
                None => (l.push(id), out),
            }
        }
    }
}

fn ids_contain(ids: &Vec<ItemId>, id: ItemId) -> (r: bool)
    ensures
        r == ids@.contains(id),
{
    let mut i: usize = 0;
    while i < ids.len()
        invariant
            i <= ids@.len(),
            forall|j: int| 0 <= j < i ==> ids@[j] != id,
        decreases ids@.len() - i,
    {
        if ids[i] == id {
            assert(ids@[i as int] == id);
            return true;
        }
        i = i + 1;
    }
    false
}

fn name_position(names: &Vec<ItemName>, id: ItemId) -> (r: Option<usize>)
    ensures
        r matches Some(p) ==> find_name(names@, id) == Some(p as int),
        r is None ==> find_name(names@, id) is None,
{
    let mut i: usize = 0;
    while i < names.len()
        invariant
            i <= names@.len(),
            forall|j: int| 0 <= j < i ==> (#[trigger] names@[j]).id != id,
        decreases names@.len() - i,
    {
        if names[i].id == id {
            proof {
                assert(is_first_name(names@, i as int, id));
                let c = choose|c: int| #[trigger] is_first_name(names@, c, id);
                assert(is_first_name(names@, c, id));
                if c < i {
                    assert(names@[c].id != id);
                } else if i < c {
                    assert(names@[i as int].id != id);
                }
            }
            return Some(i);
        }
        i = i + 1;
    }
    proof {
        if exists|c: int| #[trigger] is_first_name(names@, c, id) {
            let c = choose|c: int| #[trigger] is_first_name(names@, c, id);
            assert(names@[c].id == id);
        }
    }
    None
}

/// The kinds of `items`.
pub open spec fn kinds<D>(items: Seq<Item<D>>) -> Seq<ItemId> {
    items.map_values(|i: Item<D>| i.id)
}

/// Lists the names of the item kinds of `items` that the client has not been
/// sent yet, and records them as sent (see [`load_names`]); `None` when there
/// is nothing to list.
pub fn load_items_inner<D: Copy>(loaded: &mut Vec<ItemId>, items: &Vec<Item<D>>, names: &Vec<ItemName>, english: bool) -> (r: Option<Vec<NamedId>>)
    ensures
        ({
            let (l, out) = load_names(old(loaded)@, kinds(items@), names@, english);
            &&& final(loaded)@ == l
            &&& (out.len() == 0 <==> r is None)
            &&& r matches Some(v) ==> v@.len() == out.len() && forall|k: int| 0 <= k < out.len() ==> (#[trigger] v@[k]).name@ == out[k].0 && v@[k].id == out[k].1
        }),
{
    let mut out: Vec<NamedId> = Vec::new();
    let ghost start = loaded@;
    let ghost ks = kinds(items@);
    let n = items.len();
    let mut i: usize = 0;
    while i < n
        invariant
            n == items@.len(),
            ks == kinds(items@),
            ks.len() == n,
            start == old(loaded)@,
            i <= n,
            ({
                let (l, o) = load_names(start, ks.take(i as int), names@, english);
                &&& loaded@ == l
                &&& out@.len() == o.len()
                &&& forall|k: int| 0 <= k < o.len() ==> (#[trigger] out@[k]).name@ == o[k].0 && out@[k].id == o[k].1
            }),
        decreases n - i,
    {
        let id = items[i].id;
        proof {
            assert(ks.take(i + 1).drop_last() =~= ks.take(i as int));
            assert(ks.take(i + 1).last() == id);
        }
        if !ids_contain(loaded, id) {
            loaded.push(id);
            match name_position(names, id) {
                Some(p) => {
                    let name = if english {
                        names[p].en_name.clone()
                    } else {
                        names[p].jp_name.clone()
                    };
                    out.push(NamedId { name, id });
                },
                None => {},
            }
        }
        i = i + 1;
    }
    proof {
        assert(ks.take(n as int) =~= ks);
    }
    if out.len() == 0 {
        None
    } else {
        Some(out)
    }
}

} // verus!
