//! The text field kind of item.

use vstd::prelude::*;
use crate::items::crud2::{ModelFromPartial, Patch};
use crate::items::item::Item;
use crate::items::{ItemLike, ItemType, ItemTypeNames, Items, TypeMarker};
use crate::{Id, Timestamp};

verus! {

/// Payload of a text field.
#[derive(Clone, Debug, PartialEq, Eq)]
pub struct TextField {
    pub id: Id,
    pub text: String,
}

/// What a caller supplies to create a text field.
#[derive(Clone, Debug, PartialEq, Eq)]
pub struct NewTextField {
    pub text: String,
    pub parent_id: Option<Id>,
    pub parent_type: Option<ItemType>,
}

/// Changes to a text field; what is `None` stays as it is.
#[derive(Clone, Debug, PartialEq, Eq)]
pub struct UpdateTextField {
    pub text: Option<String>,
}

impl TextField {
    pub fn duplicate(&self) -> (r: Self)
        ensures
            r == *self,
    {
        TextField { id: self.id, text: self.text.clone() }
    }
}

impl TypeMarker for TextField {
    open spec fn spec_kind() -> ItemTypeNames {
        ItemTypeNames::TextField
    }

    open spec fn pack(self) -> Items {
        Items::TextField(self)
    }

    open spec fn unpack(row: Items) -> Option<Self> {
        match row {
            Items::TextField(p) => Some(p),
            _ => None,
        }
    }

    fn kind() -> (k: ItemTypeNames) {
        assert(Self::spec_kind() == ItemTypeNames::TextField);
        ItemTypeNames::TextField
    }

    fn into_items(self) -> (r: Items) {
        Items::TextField(self)
    }

    fn from_items(row: Items) -> (r: Option<Self>) {
        match row {
            Items::TextField(p) => Some(p),
            _ => None,
        }
    }

    proof fn lemma_pack(self) {
        assert(Self::spec_kind() == ItemTypeNames::TextField);
    }

    proof fn lemma_unpack(row: Items) {
        assert(Self::spec_kind() == ItemTypeNames::TextField);
    }
}

impl ItemLike for NewTextField {
    /// A descriptor has no identifier yet: it answers with the nil one.
    open spec fn spec_id(&self) -> Id {
        0
    }

    open spec fn spec_item_type(&self) -> ItemType {
        ItemTypeNames::TextField.spec_value()
    }

    open spec fn spec_parent_id(&self) -> Option<Id> {
        self.parent_id
    }

    open spec fn spec_parent_type(&self) -> Option<ItemType> {
        self.parent_type
    }

    fn id(&self) -> (r: Id) {
        0
    }

    fn item_type(&self) -> (r: ItemType) {
        ItemTypeNames::TextField.value()
    }

    fn parent_id(&self) -> (r: Option<Id>) {
        self.parent_id
    }

    fn parent_type(&self) -> (r: Option<ItemType>) {
        self.parent_type
    }

    open spec fn spec_record(&self, now: Timestamp) -> Item {
        Item::described(0, ItemTypeNames::TextField.spec_value(), self.parent_id, self.parent_type, now)
    }

    fn as_item_at(&self, now: Timestamp) -> (r: Item) {
        Item::describe(self.id(), self.item_type(), self.parent_id(), self.parent_type(), now)
    }
}

impl ModelFromPartial<NewTextField> for TextField {
    open spec fn spec_from_partial(partial: NewTextField, item: &Item) -> Self {
        TextField { id: item.id, text: partial.text }
    }

    fn from_partial(partial: NewTextField, item: &Item) -> (r: Self) {
        TextField { id: item.id, text: partial.text }
    }

    proof fn lemma_from_partial(partial: NewTextField, item: &Item) {
    }
}

impl Patch<TextField> for UpdateTextField {
    open spec fn spec_apply(self, row: TextField) -> TextField {
        TextField {
            id: row.id,
            text: match self.text {
                Some(t) => t,
                None => row.text,
            },
        }
    }

    fn apply(self, row: TextField) -> (r: TextField) {
        TextField {
            id: row.id,
            text: match self.text {
                Some(t) => t,
                None => row.text,
            },
        }
    }

    proof fn lemma_apply(self, row: TextField) {
    }
}

} // verus!
