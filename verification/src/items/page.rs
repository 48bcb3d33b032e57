//! The page kind of item.

use vstd::prelude::*;
use crate::items::crud2::{ModelFromPartial, Patch};
use crate::items::item::Item;
use crate::items::{ItemLike, ItemType, ItemTypeNames, Items, TypeMarker};
use crate::{Id, Timestamp};

verus! {

/// Payload of a page.
#[derive(Clone, Debug, PartialEq, Eq)]
pub struct Page {
    pub id: Id,
    pub title: String,
}

/// What a caller supplies to create a page.
#[derive(Clone, Debug, PartialEq, Eq)]
pub struct NewPage {
    pub title: String,
    pub parent_id: Option<Id>,
    pub parent_type: Option<ItemType>,
}

/// Changes to a page; what is `None` stays as it is.
#[derive(Clone, Debug, PartialEq, Eq)]
pub struct UpdatePage {
    pub title: Option<String>,
}

impl Page {
    pub fn duplicate(&self) -> (r: Self)
        ensures
            r == *self,
    {
        Page { id: self.id, title: self.title.clone() }
    }
}

impl TypeMarker for Page {
    open spec fn spec_kind() -> ItemTypeNames {
        ItemTypeNames::Page
    }

    open spec fn pack(self) -> Items {
        Items::Page(self)
    }

    open spec fn unpack(row: Items) -> Option<Self> {
        match row {
            Items::Page(p) => Some(p),
            _ => None,
        }
    }

    fn kind() -> (k: ItemTypeNames) {
        assert(Self::spec_kind() == ItemTypeNames::Page);
        ItemTypeNames::Page
    }

    fn into_items(self) -> (r: Items) {
        Items::Page(self)
    }

    fn from_items(row: Items) -> (r: Option<Self>) {
        match row {
            Items::Page(p) => Some(p),
            _ => None,
        }
    }

    proof fn lemma_pack(self) {
        assert(Self::spec_kind() == ItemTypeNames::Page);
    }

    proof fn lemma_unpack(row: Items) {
        assert(Self::spec_kind() == ItemTypeNames::Page);
    }
}

impl ItemLike for NewPage {
    /// A descriptor has no identifier yet: it answers with the nil one.
    open spec fn spec_id(&self) -> Id {
        0
    }

    open spec fn spec_item_type(&self) -> ItemType {
        ItemTypeNames::Page.spec_value()
    }

    open spec fn spec_parent_id(&self) -> Option<Id> {
        self.parent_id
    }

    open spec fn spec_parent_type(&self) -> Option<ItemType> {
        self.parent_type
    }

    fn id(&self) -> (r: Id) {
        0
    }

    fn item_type(&self) -> (r: ItemType) {
        ItemTypeNames::Page.value()
    }

    fn parent_id(&self) -> (r: Option<Id>) {
        self.parent_id
    }

    fn parent_type(&self) -> (r: Option<ItemType>) {
        self.parent_type
    }

    open spec fn spec_record(&self, now: Timestamp) -> Item {
        Item::described(0, ItemTypeNames::Page.spec_value(), self.parent_id, self.parent_type, now)
    }

    fn as_item_at(&self, now: Timestamp) -> (r: Item) {
        Item::describe(self.id(), self.item_type(), self.parent_id(), self.parent_type(), now)
    }
}

impl ModelFromPartial<NewPage> for Page {
    open spec fn spec_from_partial(partial: NewPage, item: &Item) -> Self {
        Page { id: item.id, title: partial.title }
    }

    fn from_partial(partial: NewPage, item: &Item) -> (r: Self) {
        Page { id: item.id, title: partial.title }
    }

    proof fn lemma_from_partial(partial: NewPage, item: &Item) {
    }
}

impl Patch<Page> for UpdatePage {
    open spec fn spec_apply(self, row: Page) -> Page {
        Page {
            id: row.id,
            title: match self.title {
                Some(t) => t,
                None => row.title,
            },
        }
    }

    fn apply(self, row: Page) -> (r: Page) {
        Page {
            id: row.id,
            title: match self.title {
                Some(t) => t,
                None => row.title,
            },
        }
    }

    proof fn lemma_apply(self, row: Page) {
    }
}

} // verus!
