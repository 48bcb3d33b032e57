//! The to-do entry kind of item: one line of a to-do list.

use vstd::prelude::*;
use crate::items::crud2::{ModelFromPartial, Patch};
use crate::items::item::Item;
use crate::items::{ItemLike, ItemType, ItemTypeNames, Items, TypeMarker};
use crate::{Id, Timestamp};

verus! {

/// Payload of a to-do entry.
#[derive(Clone, Debug, PartialEq, Eq)]
pub struct TodoItem {
    pub id: Id,
    pub title: String,
    pub is_checked: bool,
}

/// What a caller supplies to create a to-do entry.
#[derive(Clone, Debug, PartialEq, Eq)]
pub struct NewTodoItem {
    pub title: String,
    pub is_checked: bool,
    pub parent_id: Option<Id>,
    pub parent_type: Option<ItemType>,
}

/// Changes to a to-do entry; what is `None` stays as it is.
#[derive(Clone, Debug, PartialEq, Eq)]
pub struct UpdateTodoItem {
    pub title: Option<String>,
    pub is_checked: Option<bool>,
}

impl TodoItem {
    pub fn duplicate(&self) -> (r: Self)
        ensures
            r == *self,
    {
        TodoItem { id: self.id, title: self.title.clone(), is_checked: self.is_checked }
    }
}

impl TypeMarker for TodoItem {
    open spec fn spec_kind() -> ItemTypeNames {
        ItemTypeNames::TodoItem
    }

    open spec fn pack(self) -> Items {
        Items::TodoItem(self)
    }

    open spec fn unpack(row: Items) -> Option<Self> {
        match row {
            Items::TodoItem(p) => Some(p),
            _ => None,
        }
    }

    fn kind() -> (k: ItemTypeNames) {
        assert(Self::spec_kind() == ItemTypeNames::TodoItem);
        ItemTypeNames::TodoItem
    }

    fn into_items(self) -> (r: Items) {
        Items::TodoItem(self)
    }

    fn from_items(row: Items) -> (r: Option<Self>) {
        match row {
            Items::TodoItem(p) => Some(p),
            _ => None,
        }
    }

    proof fn lemma_pack(self) {
        assert(Self::spec_kind() == ItemTypeNames::TodoItem);
    }

    proof fn lemma_unpack(row: Items) {
        assert(Self::spec_kind() == ItemTypeNames::TodoItem);
    }
}

impl ItemLike for NewTodoItem {
    /// A descriptor has no identifier yet: it answers with the nil one.
    open spec fn spec_id(&self) -> Id {
        0
    }

    open spec fn spec_item_type(&self) -> ItemType {
        ItemTypeNames::TodoItem.spec_value()
    }

    open spec fn spec_parent_id(&self) -> Option<Id> {
        self.parent_id
    }

    open spec fn spec_parent_type(&self) -> Option<ItemType> {
        self.parent_type
    }

    fn id(&self) -> (r: Id) {
        0
    }

    fn item_type(&self) -> (r: ItemType) {
        ItemTypeNames::TodoItem.value()
    }

    fn parent_id(&self) -> (r: Option<Id>) {
        self.parent_id
    }

    fn parent_type(&self) -> (r: Option<ItemType>) {
        self.parent_type
    }

    open spec fn spec_record(&self, now: Timestamp) -> Item {
        Item::described(0, ItemTypeNames::TodoItem.spec_value(), self.parent_id, self.parent_type, now)
    }

    fn as_item_at(&self, now: Timestamp) -> (r: Item) {
        Item::describe(self.id(), self.item_type(), self.parent_id(), self.parent_type(), now)
    }
}

impl ModelFromPartial<NewTodoItem> for TodoItem {
    open spec fn spec_from_partial(partial: NewTodoItem, item: &Item) -> Self {
        TodoItem { id: item.id, title: partial.title, is_checked: partial.is_checked }
    }

    fn from_partial(partial: NewTodoItem, item: &Item) -> (r: Self) {
        TodoItem { id: item.id, title: partial.title, is_checked: partial.is_checked }
    }

    proof fn lemma_from_partial(partial: NewTodoItem, item: &Item) {
    }
}

impl Patch<TodoItem> for UpdateTodoItem {
    open spec fn spec_apply(self, row: TodoItem) -> TodoItem {
        TodoItem {
            id: row.id,
            title: match self.title {
                Some(t) => t,
                None => row.title,
            },
            is_checked: match self.is_checked {
                Some(c) => c,
                None => row.is_checked,
            },
        }
    }

    fn apply(self, row: TodoItem) -> (r: TodoItem) {
        TodoItem {
            id: row.id,
            title: match self.title {
                Some(t) => t,
                None => row.title,
            },
            is_checked: match self.is_checked {
                Some(c) => c,
                None => row.is_checked,
            },
        }
    }

    proof fn lemma_apply(self, row: TodoItem) {
    }
}

} // verus!
