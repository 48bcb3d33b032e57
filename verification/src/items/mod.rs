//! The item model: one parent record per item, whatever its kind, and one
//! typed payload per kind, both under the same `Id`.

use vstd::prelude::*;
use crate::database::Row;
use crate::{Id, Timestamp};
use item::{now, Item};
use page::Page;
use text_field::TextField;
use todo::Todo;
use todo_item::TodoItem;

pub mod crud2;
pub mod item;
pub mod page;
pub mod text_field;
pub mod todo;
pub mod todo_item;

verus! {

/// Tag that says which kind of payload belongs to a parent record.
pub type ItemType = i16;

/// The kinds of item there are.
#[derive(Clone, Copy, Debug, PartialEq, Eq, Structural)]
pub enum ItemTypeNames {
    Page,
    Todo,
    TodoItem,
    TextField,
}

impl ItemTypeNames {
    /// The tag stored for this kind.
    pub open spec fn spec_value(self) -> ItemType {
        match self {
            ItemTypeNames::Page => 100,
            ItemTypeNames::Todo => 200,
            ItemTypeNames::TodoItem => 210,
            ItemTypeNames::TextField => 300,
        }
    }

    /// The kind a stored tag stands for, if any.
    pub open spec fn spec_from_value(tag: ItemType) -> Option<ItemTypeNames> {
        if tag == 100 {
            Some(ItemTypeNames::Page)
        } else if tag == 200 {
            Some(ItemTypeNames::Todo)
        } else if tag == 210 {
            Some(ItemTypeNames::TodoItem)
        } else if tag == 300 {
            Some(ItemTypeNames::TextField)
        } else {
            None
        }
    }

    pub fn value(self) -> (tag: ItemType)
        ensures
            tag == self.spec_value(),
    {
        match self {
            ItemTypeNames::Page => 100,
            ItemTypeNames::Todo => 200,
            ItemTypeNames::TodoItem => 210,
            ItemTypeNames::TextField => 300,
        }
    }

    pub fn from_value(tag: ItemType) -> (kind: Option<ItemTypeNames>)
        ensures
            kind == Self::spec_from_value(tag),
    {
        if tag == 100 {
            Some(ItemTypeNames::Page)
        } else if tag == 200 {
            Some(ItemTypeNames::Todo)
        } else if tag == 210 {
            Some(ItemTypeNames::TodoItem)
        } else if tag == 300 {
            Some(ItemTypeNames::TextField)
        } else {
            None
        }
    }
}

/// A tag names a kind exactly if it is that kind's tag.
pub proof fn lemma_tag_of_kind(kind: ItemTypeNames, tag: ItemType)
    ensures
        ItemTypeNames::spec_from_value(tag) == Some(kind) <==> tag == kind.spec_value(),
{
}

/// What every item can say of itself, whatever its kind.
pub trait ItemLike {
    spec fn spec_id(&self) -> Id;

    spec fn spec_item_type(&self) -> ItemType;

    spec fn spec_parent_id(&self) -> Option<Id>;

    spec fn spec_parent_type(&self) -> Option<ItemType>;

    fn id(&self) -> (r: Id)
        ensures
            r == self.spec_id(),
    ;

    fn item_type(&self) -> (r: ItemType)
        ensures
            r == self.spec_item_type(),
    ;

    fn parent_id(&self) -> (r: Option<Id>)
        ensures
            r == self.spec_parent_id(),
    ;

    fn parent_type(&self) -> (r: Option<ItemType>)
        ensures
            r == self.spec_parent_type(),
    ;

    /// The parent record of this item as of `now`: the item itself, if it
    /// is a parent record; of a descriptor, the record with its tag and
    /// parent link that is made at `now`, owned by nobody and without a
    /// due date.
    spec fn spec_record(&self, now: Timestamp) -> Item;

    /// The parent record of this item as of `now`.
    fn as_item_at(&self, now: Timestamp) -> (r: Item)
        ensures
            r == self.spec_record(now),
            r.id == self.spec_id(),
            r.item_type == self.spec_item_type(),
            r.parent_id == self.spec_parent_id(),
            r.parent_type == self.spec_parent_type(),
    ;

    /// The parent record of this item as of now.
    fn as_item(&self) -> (r: Item)
        ensures
            exists|at: Timestamp| r == #[trigger] self.spec_record(at),
            r.id == self.spec_id(),
            r.item_type == self.spec_item_type(),
            r.parent_id == self.spec_parent_id(),
            r.parent_type == self.spec_parent_type(),
    {
        self.as_item_at(now())
    }

    /// The parent record of this item as of now, under an identifier
    /// drawn at random.
    fn as_new_item(&self) -> (r: Item)
        ensures
            exists|id: Id, at: Timestamp| r == #[trigger] self.spec_record(at).under(id),
            r.item_type == self.spec_item_type(),
            r.parent_id == self.spec_parent_id(),
            r.parent_type == self.spec_parent_type(),
    {
        let item = self.as_item();
        let id = fresh_id();
        proof {
            let at = choose|at: Timestamp| item == #[trigger] self.spec_record(at);
            assert(item.under(id) == self.spec_record(at).under(id));
        }
        item.with_id(id)
    }
}

/// Calls `uuid::Uuid::new_v4` and hands back, with `as_u128`, the 128 bits
/// of the identifier it drew. Nothing is claimed of the value: it is
/// random. The call panics where the system has no random bytes to give.
#[verifier::external_body]
pub(crate) fn fresh_id() -> (id: Id) {
    uuid::Uuid::new_v4().as_u128()
}

/// The payload of an item, tagged by its kind.
#[derive(Clone, Debug, PartialEq, Eq)]
pub enum Items {
    Page(Page),
    Todo(Todo),
    TodoItem(TodoItem),
    TextField(TextField),
}

impl Items {
    /// The kind of this payload.
    pub open spec fn spec_kind(&self) -> ItemTypeNames {
        match self {
            Items::Page(_) => ItemTypeNames::Page,
            Items::Todo(_) => ItemTypeNames::Todo,
            Items::TodoItem(_) => ItemTypeNames::TodoItem,
            Items::TextField(_) => ItemTypeNames::TextField,
        }
    }

    pub fn kind(&self) -> (k: ItemTypeNames)
        ensures
            k == self.spec_kind(),
    {
        match self {
            Items::Page(_) => ItemTypeNames::Page,
            Items::Todo(_) => ItemTypeNames::Todo,
            Items::TodoItem(_) => ItemTypeNames::TodoItem,
            Items::TextField(_) => ItemTypeNames::TextField,
        }
    }
}

impl Row for Items {
    open spec fn key(&self) -> Id {
        match self {
            Items::Page(p) => p.id,
            Items::Todo(t) => t.id,
            Items::TodoItem(t) => t.id,
            Items::TextField(t) => t.id,
        }
    }

    fn row_key(&self) -> (k: Id) {
        match self {
            Items::Page(p) => p.id,
            Items::Todo(t) => t.id,
            Items::TodoItem(t) => t.id,
            Items::TextField(t) => t.id,
        }
    }

    fn duplicate(&self) -> (r: Self) {
        match self {
            Items::Page(p) => Items::Page(p.duplicate()),
            Items::Todo(t) => Items::Todo(t.duplicate()),
            Items::TodoItem(t) => Items::TodoItem(t.duplicate()),
            Items::TextField(t) => Items::TextField(t.duplicate()),
        }
    }
}

/// A payload type that stands for one kind of item.
pub trait TypeMarker: Sized {
    /// The kind this type is the payload of.
    spec fn spec_kind() -> ItemTypeNames;

    /// This payload as a tagged one.
    spec fn pack(self) -> Items;

    /// The payload inside a tagged one, if it is of this kind.
    spec fn unpack(row: Items) -> Option<Self>;

    fn kind() -> (k: ItemTypeNames)
        ensures
            k == Self::spec_kind(),
    ;

    fn into_items(self) -> (r: Items)
        ensures
            r == self.pack(),
    ;

    fn from_items(row: Items) -> (r: Option<Self>)
        ensures
            r == Self::unpack(row),
    ;

    /// Packing keeps the kind, and unpacking gives the payload back.
    proof fn lemma_pack(self)
        ensures
            self.pack().spec_kind() == Self::spec_kind(),
            Self::unpack(self.pack()) == Some(self),
    ;

    /// Only a payload of this kind unpacks, and then to what was packed.
    proof fn lemma_unpack(row: Items)
        ensures
            Self::unpack(row) is Some <==> row.spec_kind() == Self::spec_kind(),
            Self::unpack(row) matches Some(m) ==> m.pack() == row,
    ;
}

/// A parent record together with its payload, as callers get to see an item.
#[derive(Clone, Debug, PartialEq, Eq)]
pub struct ViewItem {
    pub item: Item,
    pub payload: Items,
}

impl ViewItem {
    pub fn make(item: Item, payload: Items) -> (v: ViewItem)
        ensures
            v.item == item,
            v.payload == payload,
    {
        ViewItem { item, payload }
    }
}

} // verus!
