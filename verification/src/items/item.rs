//! The parent record that every item has, and the operations on its table.

use vstd::prelude::*;
use crate::database::{index_of, lookup, present, Database, Row};
use crate::errors::Error;
use crate::items::crud2::Find;
use crate::items::page::Page;
use crate::items::text_field::TextField;
use crate::items::todo::Todo;
use crate::items::todo_item::TodoItem;
use crate::items::{ItemLike, ItemType, ItemTypeNames, Items, TypeMarker, ViewItem};
use crate::users::user::User;
use crate::{Id, Timestamp};

verus! {

/// The record shared by items of every kind: who owns the item, what kind
/// it is, where it hangs in the hierarchy and when it was touched.
#[derive(Clone, Copy, Debug, PartialEq, Eq)]
pub struct Item {
    pub id: Id,
    pub item_type: ItemType,
    pub parent_id: Option<Id>,
    pub parent_type: Option<ItemType>,
    pub created_at: Timestamp,
    pub updated_at: Timestamp,
    pub owner_id: Id,
    pub due_date: Option<Timestamp>,
}

/// Changes to a parent record; what is `None` stays as it is.
#[derive(Clone, Copy, Debug, PartialEq, Eq)]
pub struct UpdateItemRequest {
    pub parent_id: Option<Id>,
    pub parent_type: Option<ItemType>,
    pub due_date: Option<Timestamp>,
}

/// Which items to list: those under `parent_id`, or all of them if it is `None`.
#[derive(Clone, Copy, Debug, PartialEq, Eq)]
pub struct ItemsByParentRequest {
    pub parent_id: Option<Id>,
}

/// Calls `chrono::Utc::now` and hands back the seconds since the Unix epoch
/// that `DateTime::timestamp` reads off it. Nothing is claimed of the value:
/// it is the clock's. The call panics where the clock is set before 1970.
#[verifier::external_body]
pub(crate) fn now() -> (t: Timestamp) {
    chrono::Utc::now().timestamp()
}

impl Row for Item {
    open spec fn key(&self) -> Id {
        self.id
    }

    fn row_key(&self) -> (k: Id) {
        self.id
    }

    fn duplicate(&self) -> (r: Self) {
        *self
    }
}

impl ItemLike for Item {
    open spec fn spec_id(&self) -> Id {
        self.id
    }

    open spec fn spec_item_type(&self) -> ItemType {
        self.item_type
    }

    open spec fn spec_parent_id(&self) -> Option<Id> {
        self.parent_id
    }

    open spec fn spec_parent_type(&self) -> Option<ItemType> {
        self.parent_type
    }

    fn id(&self) -> (r: Id) {
        self.id
    }

    fn item_type(&self) -> (r: ItemType) {
        self.item_type
    }

    fn parent_id(&self) -> (r: Option<Id>) {
        self.parent_id
    }

    fn parent_type(&self) -> (r: Option<ItemType>) {
        self.parent_type
    }

    /// A parent record is its own parent record, whatever the time.
    open spec fn spec_record(&self, now: Timestamp) -> Item {
        *self
    }

    fn as_item_at(&self, now: Timestamp) -> (r: Item) {
        *self
    }

    /// A parent record is its own parent record.
    fn as_item(&self) -> (r: Item)
        ensures
            r == *self,
    {
        assert(self.spec_record(0) == *self);
        assert(self.spec_id() == self.id);
        *self
    }
}

impl Default for Item {
    /// The blank record as of now.
    fn default() -> (r: Item)
        ensures
            r == Item::blank(r.created_at),
    {
        Item::blank_at(now())
    }
}

impl Item {
    /// The record of no item: nil identifiers, tag 0, no parent, no due
    /// date, made and last touched at `now`.
    pub open spec fn blank(now: Timestamp) -> Item {
        Item {
            id: 0,
            item_type: 0,
            parent_id: None,
            parent_type: None,
            created_at: now,
            updated_at: now,
            owner_id: 0,
            due_date: None,
        }
    }

    pub fn blank_at(now: Timestamp) -> (r: Item)
        ensures
            r == Item::blank(now),
    {
        Item {
            id: 0,
            item_type: 0,
            parent_id: None,
            parent_type: None,
            created_at: now,
            updated_at: now,
            owner_id: 0,
            due_date: None,
        }
    }

    /// The record that describes an item which is none yet: `id`, tag and
    /// parent link as given, made and last touched at `now`, owned by
    /// nobody and without a due date.
    pub open spec fn described(
        id: Id,
        item_type: ItemType,
        parent_id: Option<Id>,
        parent_type: Option<ItemType>,
        now: Timestamp,
    ) -> Item {
        Item { id, item_type, parent_id, parent_type, ..Item::blank(now) }
    }

    pub fn describe(
        id: Id,
        item_type: ItemType,
        parent_id: Option<Id>,
        parent_type: Option<ItemType>,
        now: Timestamp,
    ) -> (r: Item)
        ensures
            r == Item::described(id, item_type, parent_id, parent_type, now),
    {
        let blank = Item::blank_at(now);
        Item {
            id,
            item_type,
            parent_id,
            parent_type,
            created_at: blank.created_at,
            updated_at: blank.updated_at,
            owner_id: blank.owner_id,
            due_date: blank.due_date,
        }
    }

    /// This record under another identifier.
    pub open spec fn under(self, id: Id) -> Item {
        Item { id, ..self }
    }

    /// This record under another identifier.
    pub fn with_id(self, id: Id) -> (r: Item)
        ensures
            r == self.under(id),
    {
        Item { id, ..self }
    }

    /// This record after `form` was applied at `now`.
    pub open spec fn patched(self, form: UpdateItemRequest, now: Timestamp) -> Item {
        Item {
            parent_id: if form.parent_id is Some { form.parent_id } else { self.parent_id },
            parent_type: if form.parent_type is Some { form.parent_type } else { self.parent_type },
            due_date: if form.due_date is Some { form.due_date } else { self.due_date },
            updated_at: now,
            ..self
        }
    }

    /// The record `id` exists, belongs to `owner` and has the tag `tag`.
    pub open spec fn owns(items: Seq<Item>, id: Id, owner: Id, tag: ItemType) -> bool {
        match lookup(items, id) {
            Some(item) => item.owner_id == owner && item.item_type == tag,
            None => false,
        }
    }

    /// The record `id` exists and belongs to `owner`.
    pub open spec fn owned_by(items: Seq<Item>, id: Id, owner: Id) -> bool {
        match lookup(items, id) {
            Some(item) => item.owner_id == owner,
            None => false,
        }
    }

    /// The ownership guard: does `owner` own an item `id` of kind `T`?
    pub fn has_owner<T: TypeMarker>(id: Id, owner: Id, conn: &Database) -> (b: bool)
        ensures
            b == Item::owns(conn.items@, id, owner, T::spec_kind().spec_value()),
    {
        match conn.items.get(id) {
            Some(item) => item.owner_id == owner && item.item_type == T::kind().value(),
            None => false,
        }
    }

    /// Removes the record `id` if it is of kind `T`.
    pub fn delete<T: TypeMarker>(id: Id, conn: &mut Database) -> (r: Result<(), Error>)
        ensures
            r == if lookup(old(conn).items@, id) matches Some(item) && item.item_type
                == T::spec_kind().spec_value() {
                Ok::<(), Error>(())
            } else {
                Err(Error::NotFound)
            },
            final(conn).items@ == if r is Ok {
                old(conn).items@.remove(index_of(old(conn).items@, id))
            } else {
                old(conn).items@
            },
            final(conn).payloads@ == old(conn).payloads@,
            final(conn).users@ == old(conn).users@,
            old(conn).wf() ==> final(conn).wf(),
    {
        match conn.items.get(id) {
            Some(item) => {
                if item.item_type == T::kind().value() {
                    let _ = conn.items.remove(id);
                    Ok(())
                } else {
                    Err(Error::NotFound)
                }
            },
            None => Err(Error::NotFound),
        }
    }

    /// Stores this record. The store refuses an identifier that is taken.
    pub fn create(&self, conn: &mut Database) -> (r: Result<Item, Error>)
        ensures
            r == if present(old(conn).items@, self.id) {
                Err::<Item, Error>(Error::Storage)
            } else {
                Ok(*self)
            },
            final(conn).items@ == if r is Ok {
                old(conn).items@.push(*self)
            } else {
                old(conn).items@
            },
            final(conn).payloads@ == old(conn).payloads@,
            final(conn).users@ == old(conn).users@,
            old(conn).wf() ==> final(conn).wf(),
    {
        if conn.items.insert(*self) {
            Ok(*self)
        } else {
            Err(Error::Storage)
        }
    }

    /// What applying `form` to the record `id` comes to for `owner` at
    /// `now`: the changed record, if `owner` owns it.
    pub open spec fn spec_update(
        items: Seq<Item>,
        id: Id,
        form: UpdateItemRequest,
        owner: Id,
        now: Timestamp,
    ) -> Result<Item, Error> {
        match lookup(items, id) {
            Some(before) => if before.owner_id == owner {
                Ok(before.patched(form, now))
            } else {
                Err(Error::NotFound)
            },
            None => Err(Error::NotFound),
        }
    }

    /// Applies `form` to the record `id` of `owner`, as of now.
    pub fn update(id: &Id, form: &UpdateItemRequest, owner: Id, conn: &mut Database) -> (r: Result<
        Item,
        Error,
    >)
        ensures
            r is Ok <==> Item::owned_by(old(conn).items@, *id, owner),
            r matches Ok(item) ==> r == Item::spec_update(
                old(conn).items@,
                *id,
                *form,
                owner,
                item.updated_at,
            ),
            r matches Err(e) ==> e == Error::NotFound,
            final(conn).items@ == match r {
                Ok(item) => old(conn).items@.update(index_of(old(conn).items@, *id), item),
                Err(_) => old(conn).items@,
            },
            final(conn).payloads@ == old(conn).payloads@,
            final(conn).users@ == old(conn).users@,
            old(conn).wf() ==> final(conn).wf(),
    {
        Item::update_at(id, form, owner, now(), conn)
    }

    /// Applies `form` to the record `id` of `owner`, as of `now`. A record
    /// that is missing and one that belongs to someone else are refused alike.
    pub fn update_at(
        id: &Id,
        form: &UpdateItemRequest,
        owner: Id,
        now: Timestamp,
        conn: &mut Database,
    ) -> (r: Result<Item, Error>)
        ensures
            r == Item::spec_update(old(conn).items@, *id, *form, owner, now),
            final(conn).items@ == match r {
                Ok(item) => old(conn).items@.update(index_of(old(conn).items@, *id), item),
                Err(_) => old(conn).items@,
            },
            final(conn).payloads@ == old(conn).payloads@,
            final(conn).users@ == old(conn).users@,
            old(conn).wf() ==> final(conn).wf(),
    {
        match conn.items.get(*id) {
            Some(before) => {
                if before.owner_id == owner {
                    let item = Item {
                        parent_id: if form.parent_id.is_some() {
                            form.parent_id
                        } else {
                            before.parent_id
                        },
                        parent_type: if form.parent_type.is_some() {
                            form.parent_type
                        } else {
                            before.parent_type
                        },
                        due_date: if form.due_date.is_some() {
                            form.due_date
                        } else {
                            before.due_date
                        },
                        updated_at: now,
                        ..before
                    };
                    proof {
                        crate::database::lemma_index_of(conn.items@, *id);
                    }
                    let _ = conn.items.replace(item);
                    Ok(item)
                } else {
                    Err(Error::NotFound)
                }
            },
            None => Err(Error::NotFound),
        }
    }

    /// `item` belongs to `owner` and, if `pid` names a parent, hangs under it.
    pub open spec fn selected(item: Item, owner: Id, pid: Option<Id>) -> bool {
        item.owner_id == owner && (pid is Some ==> item.parent_id == pid)
    }

    /// The item that `item` is the parent record of: its payload is the one
    /// stored under its identifier, if that is of the kind its tag names.
    pub open spec fn view_of(payloads: Seq<Items>, item: Item) -> Option<ViewItem> {
        match lookup(payloads, item.id) {
            Some(row) => if ItemTypeNames::spec_from_value(item.item_type) == Some(
                row.spec_kind(),
            ) {
                Some(ViewItem { item, payload: row })
            } else {
                None
            },
            None => None,
        }
    }

    /// The items of `owner` (under `pid`, if given), last stored first; or
    /// `Integrity` if one of them has no payload of its kind.
    pub open spec fn listing(
        items: Seq<Item>,
        payloads: Seq<Items>,
        owner: Id,
        pid: Option<Id>,
    ) -> Result<Seq<ViewItem>, Error>
        decreases items.len(),
    {
        if items.len() == 0 {
            Ok(Seq::empty())
        } else {
            let rest = Item::listing(items.drop_last(), payloads, owner, pid);
            if !Item::selected(items.last(), owner, pid) {
                rest
            } else {
                match (Item::view_of(payloads, items.last()), rest) {
                    (Some(v), Ok(vs)) => Ok(seq![v] + vs),
                    _ => Err(Error::Integrity),
                }
            }
        }
    }

    /// A listing fails in one way only.
    pub proof fn lemma_listing_error(
        items: Seq<Item>,
        payloads: Seq<Items>,
        owner: Id,
        pid: Option<Id>,
    )
        ensures
            Item::listing(items, payloads, owner, pid) matches Err(e) ==> e == Error::Integrity,
        decreases items.len(),
    {
        if items.len() != 0 {
            Item::lemma_listing_error(items.drop_last(), payloads, owner, pid);
        }
    }

    /// Fetches the payload of `item` from the store of the kind its tag names.
    pub fn load(item: Item, conn: &Database) -> (r: Result<ViewItem, Error>)
        ensures
            r == match Item::view_of(conn.payloads@, item) {
                Some(v) => Ok::<ViewItem, Error>(v),
                None => Err(Error::Integrity),
            },
    {
        let payload = match ItemTypeNames::from_value(item.item_type) {
            Some(ItemTypeNames::Page) => match Page::find(item.id, conn) {
                Ok(p) => Some(Items::Page(p)),
                Err(_) => None,
            },
            Some(ItemTypeNames::Todo) => match Todo::find(item.id, conn) {
                Ok(p) => Some(Items::Todo(p)),
                Err(_) => None,
            },
            Some(ItemTypeNames::TodoItem) => match TodoItem::find(item.id, conn) {
                Ok(p) => Some(Items::TodoItem(p)),
                Err(_) => None,
            },
            Some(ItemTypeNames::TextField) => match TextField::find(item.id, conn) {
                Ok(p) => Some(Items::TextField(p)),
                Err(_) => None,
            },
            None => None,
        };
        match payload {
            Some(p) => Ok(ViewItem::make(item, p)),
            None => Err(Error::Integrity),
        }
    }

    /// Lists the items of `user`, those under `pid` if it is given, last
    /// stored first.
    pub fn find(pid: &Option<Id>, user: User, conn: &Database) -> (r: Result<Vec<ViewItem>, Error>)
        ensures
            match Item::listing(conn.items@, conn.payloads@, user.id, *pid) {
                Ok(views) => r matches Ok(v) && v@ == views,
                Err(e) => r == Err::<Vec<ViewItem>, Error>(e),
            },
    {
        let ghost items = conn.items@;
        let ghost payloads = conn.payloads@;
        let mut out: Vec<ViewItem> = Vec::new();
        let mut i: usize = conn.items.len();
        assert(items.take(i as int) == items);
        while i > 0
            invariant
                i <= items.len(),
                items == conn.items@,
                payloads == conn.payloads@,
                Item::listing(items, payloads, user.id, *pid) == match Item::listing(
                    items.take(i as int),
                    payloads,
                    user.id,
                    *pid,
                ) {
                    Ok(vs) => Ok::<Seq<ViewItem>, Error>(out@ + vs),
                    Err(e) => Err(e),
                },
            decreases i,
        {
            let item = conn.items.at(i - 1);
            let ghost before = out@;
            let ghost prefix = items.take(i as int);
            let ghost rest = Item::listing(items.take(i - 1), payloads, user.id, *pid);
            proof {
                Item::lemma_listing_error(items.take(i - 1), payloads, user.id, *pid);
                assert(prefix.last() == item);
                assert(prefix.drop_last() == items.take(i - 1));
                assert(Item::listing(prefix, payloads, user.id, *pid) == if !Item::selected(
                    item,
                    user.id,
                    *pid,
                ) {
                    rest
                } else {
                    match (Item::view_of(payloads, item), rest) {
                        (Some(v), Ok(vs)) => Ok(seq![v] + vs),
                        _ => Err(Error::Integrity),
                    }
                });
            }
            let wanted = item.owner_id == user.id && match (pid, item.parent_id) {
                (Some(p), Some(q)) => *p == q,
                (Some(_), None) => false,
                (None, _) => true,
            };
            if wanted {
                match Item::load(item, conn) {
                    Ok(v) => {
                        out.push(v);
                        proof {
                            if let Ok(vs) = rest {
                                assert(before + (seq![v] + vs) == out@ + vs);
                            }
                        }
                    },
                    Err(e) => {
                        return Err(e);
                    },
                }
            }
            i -= 1;
        }
        assert(out@ + Seq::<ViewItem>::empty() == out@);
        Ok(out)
    }
}

} // verus!
