//! The typed stores, one per kind of item, and the four operations that
//! put the ownership guard in front of them.

use vstd::prelude::*;
use vstd::pervasive::unreached;
use crate::database::{index_of, lemma_index_of, lemma_push, lookup, present, Database, Row};
use crate::errors::Error;
use crate::items::item::{now, Item};
use crate::items::{fresh_id, ItemLike, Items, TypeMarker, ViewItem};
use crate::users::user::User;
use crate::{Id, Timestamp};

verus! {

/// The payload of kind `M` stored under `key`, if there is one.
pub open spec fn stored<M: TypeMarker>(payloads: Seq<Items>, key: Id) -> Option<M> {
    match lookup(payloads, key) {
        Some(row) => M::unpack(row),
        None => None,
    }
}

/// A payload that can be stored under its identifier.
pub trait Create: TypeMarker {
    /// Stores the payload. The store refuses an identifier that is taken.
    fn create(self, conn: &mut Database) -> (r: Result<Self, Error>)
        ensures
            r == if present(old(conn).payloads@, self.pack().key()) {
                Err::<Self, Error>(Error::Storage)
            } else {
                Ok(self)
            },
            final(conn).payloads@ == if r is Ok {
                old(conn).payloads@.push(self.pack())
            } else {
                old(conn).payloads@
            },
            final(conn).items@ == old(conn).items@,
            final(conn).users@ == old(conn).users@,
            old(conn).wf() ==> final(conn).wf(),
    ;
}

/// A payload that can be fetched by its identifier.
pub trait Find: TypeMarker {
    fn find(key: Id, conn: &Database) -> (r: Result<Self, Error>)
        ensures
            r == match stored::<Self>(conn.payloads@, key) {
                Some(m) => Ok::<Self, Error>(m),
                None => Err(Error::NotFound),
            },
    ;
}

/// A payload that changes of type `U` can be applied to.
pub trait Update<U>: TypeMarker {
    /// The payload after the changes.
    spec fn spec_patched(self, changes: U) -> Self;

    /// Applies `changes` to the payload stored under `id` and hands back
    /// what is stored then.
    fn update(id: Id, changes: U, conn: &mut Database) -> (r: Result<Self, Error>)
        ensures
            r == match stored::<Self>(old(conn).payloads@, id) {
                Some(m) => Ok::<Self, Error>(m.spec_patched(changes)),
                None => Err(Error::NotFound),
            },
            final(conn).payloads@ == match r {
                Ok(m) => old(conn).payloads@.update(index_of(old(conn).payloads@, id), m.pack()),
                Err(_) => old(conn).payloads@,
            },
            final(conn).items@ == old(conn).items@,
            final(conn).users@ == old(conn).users@,
            old(conn).wf() ==> final(conn).wf(),
    ;
}

/// A payload that can be removed by its identifier.
pub trait Delete: TypeMarker {
    fn delete(id: Id, conn: &mut Database) -> (r: Result<(), Error>)
        ensures
            r == if stored::<Self>(old(conn).payloads@, id) is Some {
                Ok::<(), Error>(())
            } else {
                Err(Error::NotFound)
            },
            final(conn).payloads@ == if r is Ok {
                old(conn).payloads@.remove(index_of(old(conn).payloads@, id))
            } else {
                old(conn).payloads@
            },
            final(conn).items@ == old(conn).items@,
            final(conn).users@ == old(conn).users@,
            old(conn).wf() ==> final(conn).wf(),
    ;
}

/// A payload that can be made from a descriptor `P` and the parent record
/// it is to go with.
pub trait ModelFromPartial<P: ItemLike>: TypeMarker {
    spec fn spec_from_partial(partial: P, item: &Item) -> Self;

    fn from_partial(partial: P, item: &Item) -> (r: Self)
        ensures
            r == Self::spec_from_partial(partial, item),
    ;

    /// The payload goes under the identifier of its parent record, and
    /// the descriptor carries the tag of this kind.
    proof fn lemma_from_partial(partial: P, item: &Item)
        ensures
            Self::spec_from_partial(partial, item).pack().key() == item.id,
            partial.spec_item_type() == Self::spec_kind().spec_value(),
    ;
}

/// A descriptor that a payload `M` can be made from.
pub trait IntoModel<M: TypeMarker>: ItemLike + Sized {
    spec fn spec_into_model(self, item: &Item) -> M;

    fn into_model(self, item: &Item) -> (r: M)
        ensures
            r == self.spec_into_model(item),
    ;

    /// The payload goes under the identifier of its parent record, and
    /// the descriptor carries the tag of the payload's kind.
    proof fn lemma_into_model(self, item: &Item)
        ensures
            self.spec_into_model(item).pack().key() == item.id,
            self.spec_item_type() == M::spec_kind().spec_value(),
    ;
}

/// Changes that can be applied to a payload `M`.
pub trait Patch<M: TypeMarker>: Sized {
    spec fn spec_apply(self, row: M) -> M;

    fn apply(self, row: M) -> (r: M)
        ensures
            r == self.spec_apply(row),
    ;

    /// The changes leave the identifier alone.
    proof fn lemma_apply(self, row: M)
        ensures
            self.spec_apply(row).pack().key() == row.pack().key(),
    ;
}

impl<P: ItemLike, M: ModelFromPartial<P>> IntoModel<M> for P {
    open spec fn spec_into_model(self, item: &Item) -> M {
        M::spec_from_partial(self, item)
    }

    fn into_model(self, item: &Item) -> (r: M) {
        M::from_partial(self, item)
    }

    proof fn lemma_into_model(self, item: &Item) {
        M::lemma_from_partial(self, item);
    }
}

impl<M: TypeMarker> Create for M {
    fn create(self, conn: &mut Database) -> (r: Result<Self, Error>) {
        proof {
            self.lemma_pack();
        }
        let row = self.into_items();
        let copy = row.duplicate();
        if conn.payloads.insert(row) {
            match M::from_items(copy) {
                Some(m) => Ok(m),
                None => unreached(),
            }
        } else {
            Err(Error::Storage)
        }
    }
}

impl<M: TypeMarker> Find for M {
    fn find(key: Id, conn: &Database) -> (r: Result<Self, Error>) {
        match conn.payloads.get(key) {
            Some(row) => match M::from_items(row) {
                Some(m) => Ok(m),
                None => Err(Error::NotFound),
            },
            None => Err(Error::NotFound),
        }
    }
}

impl<M: TypeMarker, U: Patch<M>> Update<U> for M {
    open spec fn spec_patched(self, changes: U) -> Self {
        changes.spec_apply(self)
    }

    fn update(id: Id, changes: U, conn: &mut Database) -> (r: Result<Self, Error>) {
        match conn.payloads.get(id) {
            Some(row) => match M::from_items(row) {
                Some(before) => {
                    proof {
                        M::lemma_unpack(row);
                        changes.lemma_apply(before);
                        lemma_index_of(conn.payloads@, id);
                        changes.spec_apply(before).lemma_pack();
                    }
                    let after = changes.apply(before).into_items();
                    let copy = after.duplicate();
                    let _ = conn.payloads.replace(after);
                    match M::from_items(copy) {
                        Some(m) => Ok(m),
                        None => unreached(),
                    }
                },
                None => Err(Error::NotFound),
            },
            None => Err(Error::NotFound),
        }
    }
}

impl<M: TypeMarker> Delete for M {
    fn delete(id: Id, conn: &mut Database) -> (r: Result<(), Error>) {
        match conn.payloads.get(id) {
            Some(row) => match M::from_items(row) {
                Some(_) => {
                    let _ = conn.payloads.remove(id);
                    Ok(())
                },
                None => Err(Error::NotFound),
            },
            None => Err(Error::NotFound),
        }
    }
}

/// What fetching the item `id` of kind `M` comes to for `owner`: the
/// payload, if `owner` owns such an item and its payload is there.
pub open spec fn spec_find<M: TypeMarker>(
    items: Seq<Item>,
    payloads: Seq<Items>,
    id: Id,
    owner: Id,
) -> Result<M, Error> {
    if Item::owns(items, id, owner, M::spec_kind().spec_value()) {
        match stored::<M>(payloads, id) {
            Some(m) => Ok(m),
            None => Err(Error::NotFound),
        }
    } else {
        Err(Error::NotFound)
    }
}

/// What applying `changes` to the item `id` of kind `M` comes to for `owner`.
pub open spec fn spec_update<M: Update<U>, U>(
    items: Seq<Item>,
    payloads: Seq<Items>,
    id: Id,
    changes: U,
    owner: Id,
) -> Result<M, Error> {
    match spec_find::<M>(items, payloads, id, owner) {
        Ok(m) => Ok(m.spec_patched(changes)),
        Err(e) => Err(e),
    }
}

/// What removing the item `id` of kind `M` comes to for `owner`.
pub open spec fn spec_delete<M: TypeMarker>(
    items: Seq<Item>,
    payloads: Seq<Items>,
    id: Id,
    owner: Id,
) -> Result<(), Error> {
    match spec_find::<M>(items, payloads, id, owner) {
        Ok(_) => Ok(()),
        Err(e) => Err(e),
    }
}

/// The parent record of an item made from `partial` for `owner`, under `id`, at `now`.
pub open spec fn new_item<N: ItemLike>(partial: N, owner: Id, id: Id, now: Timestamp) -> Item {
    Item {
        id,
        item_type: partial.spec_item_type(),
        parent_id: partial.spec_parent_id(),
        parent_type: partial.spec_parent_type(),
        created_at: now,
        updated_at: now,
        owner_id: owner,
        due_date: None,
    }
}

/// What creating the item that `partial` describes comes to for `owner`,
/// under `id` and at `now`: the new item, unless `id` is taken.
pub open spec fn spec_create<M: TypeMarker, N: IntoModel<M> + ItemLike>(
    items: Seq<Item>,
    payloads: Seq<Items>,
    partial: N,
    owner: Id,
    id: Id,
    now: Timestamp,
) -> Result<ViewItem, Error> {
    let item = new_item(partial, owner, id, now);
    let payload = partial.spec_into_model(&item).pack();
    if present(items, id) || present(payloads, payload.key()) {
        Err(Error::Storage)
    } else {
        Ok(ViewItem { item, payload })
    }
}

/// Creates the item that `partial` describes, for `user`, under an
/// identifier drawn at random and as of now.
pub fn create<M, N>(partial: N, user: User, conn: &mut Database) -> (r: Result<ViewItem, Error>) where
    N: IntoModel<M> + ItemLike,
    M: Create + TypeMarker,

    ensures
        exists|id: Id, at: Timestamp|
            r == #[trigger] spec_create::<M, N>(
                old(conn).items@,
                old(conn).payloads@,
                partial,
                user.id,
                id,
                at,
            ),
        r matches Ok(v) ==> {
            &&& r == spec_create::<M, N>(
                old(conn).items@,
                old(conn).payloads@,
                partial,
                user.id,
                v.item.id,
                v.item.created_at,
            )
            &&& v.item.item_type == M::spec_kind().spec_value()
            &&& v.payload.spec_kind() == M::spec_kind()
            &&& v.payload.key() == v.item.id
            &&& final(conn).items@ == old(conn).items@.push(v.item)
            &&& final(conn).payloads@ == old(conn).payloads@.push(v.payload)
        },
        r matches Err(e) ==> {
            &&& e == Error::Storage
            &&& final(conn).items@ == old(conn).items@
            &&& final(conn).payloads@ == old(conn).payloads@
        },
        final(conn).users@ == old(conn).users@,
        old(conn).wf() ==> final(conn).wf(),
{
    create_with::<M, N>(partial, user, fresh_id(), now(), conn)
}

/// Creates the item that `partial` describes, for `user`, under `id` and as
/// of `now`: first the parent record, then the payload. If the store
/// refuses either, nothing is stored.
pub fn create_with<M, N>(
    partial: N,
    user: User,
    id: Id,
    now: Timestamp,
    conn: &mut Database,
) -> (r: Result<ViewItem, Error>) where N: IntoModel<M> + ItemLike, M: Create + TypeMarker
    ensures
        r == spec_create::<M, N>(old(conn).items@, old(conn).payloads@, partial, user.id, id, now),
        r matches Ok(v) ==> {
            &&& v.item.item_type == M::spec_kind().spec_value()
            &&& v.payload.spec_kind() == M::spec_kind()
            &&& v.payload.key() == v.item.id
        },
        final(conn).items@ == match r {
            Ok(v) => old(conn).items@.push(v.item),
            Err(_) => old(conn).items@,
        },
        final(conn).payloads@ == match r {
            Ok(v) => old(conn).payloads@.push(v.payload),
            Err(_) => old(conn).payloads@,
        },
        final(conn).users@ == old(conn).users@,
        old(conn).wf() ==> final(conn).wf(),
{
    let item = Item {
        id,
        item_type: partial.item_type(),
        parent_id: partial.parent_id(),
        parent_type: partial.parent_type(),
        created_at: now,
        updated_at: now,
        owner_id: user.id,
        due_date: None,
    };
    proof {
        partial.lemma_into_model(&item);
        partial.spec_into_model(&item).lemma_pack();
    }
    let model = partial.into_model(&item);
    let ghost before = conn.items@;
    match item.create(conn) {
        Ok(_) => {},
        Err(e) => {
            return Err(e);
        },
    }
    match model.create(conn) {
        Ok(model) => Ok(ViewItem::make(item, model.into_items())),
        Err(e) => {
            proof {
                lemma_push(before, item, id);
                assert(before.push(item).remove(before.len() as int) == before);
            }
            let _ = conn.items.remove(id);
            Err(e)
        },
    }
}

/// Applies `changes` to the item `id` of kind `M`, if `user` owns it.
pub fn update<M, U>(id: Id, changes: U, user: User, conn: &mut Database) -> (r: Result<M, Error>) where
    M: Update<U> + TypeMarker,

    ensures
        r == spec_update::<M, U>(old(conn).items@, old(conn).payloads@, id, changes, user.id),
        final(conn).payloads@ == match r {
            Ok(m) => old(conn).payloads@.update(index_of(old(conn).payloads@, id), m.pack()),
            Err(_) => old(conn).payloads@,
        },
        final(conn).items@ == old(conn).items@,
        final(conn).users@ == old(conn).users@,
        old(conn).wf() ==> final(conn).wf(),
{
    if Item::has_owner::<M>(id, user.id, conn) {
        M::update(id, changes, conn)
    } else {
        Err(Error::NotFound)
    }
}

/// Fetches the item `id` of kind `M`, if `user` owns it. An item that is
/// missing and one that belongs to someone else are refused alike.
pub fn find<M>(id: Id, user: User, conn: &Database) -> (r: Result<M, Error>) where
    M: Find + TypeMarker,

    ensures
        r == spec_find::<M>(conn.items@, conn.payloads@, id, user.id),
{
    if Item::has_owner::<M>(id, user.id, conn) {
        M::find(id, conn)
    } else {
        Err(Error::NotFound)
    }
}

/// Removes the item `id` of kind `M`, payload and parent record, if `user`
/// owns it. If the payload is missing, nothing is removed.
pub fn delete<M>(id: Id, user: User, conn: &mut Database) -> (r: Result<(), Error>) where
    M: Delete + TypeMarker,

    ensures
        r == spec_delete::<M>(old(conn).items@, old(conn).payloads@, id, user.id),
        final(conn).payloads@ == if r is Ok {
            old(conn).payloads@.remove(index_of(old(conn).payloads@, id))
        } else {
            old(conn).payloads@
        },
        final(conn).items@ == if r is Ok {
            old(conn).items@.remove(index_of(old(conn).items@, id))
        } else {
            old(conn).items@
        },
        final(conn).users@ == old(conn).users@,
        old(conn).wf() ==> final(conn).wf(),
{
    if Item::has_owner::<M>(id, user.id, conn) {
        match M::delete(id, conn) {
            Ok(()) => Item::delete::<M>(id, conn),
            Err(e) => Err(e),
        }
    } else {
        Err(Error::NotFound)
    }
}

} // verus!
