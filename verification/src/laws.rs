//! What holds of the operations taken together.

use vstd::prelude::*;
use vstd::string::*;
use crate::database::{
    index_of, lemma_index_of, lemma_present, lemma_push, lemma_remove, lemma_update, present,
    unique, Row,
};
use crate::errors::Error;
use crate::items::crud2::{
    new_item, spec_create, spec_delete, spec_find, spec_update, IntoModel, Patch,
};
use crate::items::item::{Item, UpdateItemRequest};
use crate::items::{lemma_tag_of_kind, ItemLike, Items, TypeMarker};
use crate::users::user::{claims_for, issuer, name_taken, spec_find_user, spec_login, User, VALIDITY};
use crate::utils::jwt::{lemma_issued_token_is_accepted, spec_decrypt, token_text, Claims};
use crate::utils::{password_matches, spec_authenticate};
use crate::{Id, Timestamp};

verus! {

/// What one user has created, another can neither fetch nor change nor
/// remove: to the other it is not there.
pub proof fn lemma_foreign_item_is_hidden<M, N, U>(
    items: Seq<Item>,
    payloads: Seq<Items>,
    partial: N,
    creator: Id,
    other: Id,
    id: Id,
    now: Timestamp,
    changes: U,
) where M: TypeMarker, N: IntoModel<M> + ItemLike, U: Patch<M>
    requires
        creator != other,
        spec_create::<M, N>(items, payloads, partial, creator, id, now) is Ok,
    ensures
        ({
            let made = spec_create::<M, N>(items, payloads, partial, creator, id, now)->Ok_0;
            let items = items.push(made.item);
            let payloads = payloads.push(made.payload);
            &&& spec_find::<M>(items, payloads, id, other) == Err::<M, Error>(Error::NotFound)
            &&& spec_update::<M, U>(items, payloads, id, changes, other) == Err::<M, Error>(
                Error::NotFound,
            )
            &&& spec_delete::<M>(items, payloads, id, other) == Err::<(), Error>(Error::NotFound)
        }),
{
    lemma_push(items, new_item(partial, creator, id, now), id);
}

/// What a user has created as an item of kind `M`, the same user fetches
/// again: the payload made from what was supplied.
pub proof fn lemma_created_item_is_found<M, N>(
    items: Seq<Item>,
    payloads: Seq<Items>,
    partial: N,
    creator: Id,
    id: Id,
    now: Timestamp,
) where M: TypeMarker, N: IntoModel<M> + ItemLike
    requires
        spec_create::<M, N>(items, payloads, partial, creator, id, now) is Ok,
    ensures
        ({
            let made = spec_create::<M, N>(items, payloads, partial, creator, id, now)->Ok_0;
            spec_find::<M>(items.push(made.item), payloads.push(made.payload), id, creator) == Ok::<
                M,
                Error,
            >(partial.spec_into_model(&made.item))
        }),
{
    let item = new_item(partial, creator, id, now);
    let model = partial.spec_into_model(&item);
    partial.lemma_into_model(&item);
    model.lemma_pack();
    lemma_push(items, item, id);
    lemma_push(payloads, model.pack(), id);
}

/// The parent records that a listing for `owner` under `pid` is about:
/// those of `owner` (under `pid`, if given), last stored first.
pub open spec fn listed(items: Seq<Item>, owner: Id, pid: Option<Id>) -> Seq<Item> {
    items.filter(|item: Item| Item::selected(item, owner, pid)).reverse()
}

/// A listing holds exactly the items of its owner under the parent asked
/// for, last stored first, each with the payload stored for it.
pub proof fn lemma_listing_is_exact(
    items: Seq<Item>,
    payloads: Seq<Items>,
    owner: Id,
    pid: Option<Id>,
)
    requires
        Item::listing(items, payloads, owner, pid) is Ok,
    ensures
        ({
            let views = Item::listing(items, payloads, owner, pid)->Ok_0;
            &&& views.len() == listed(items, owner, pid).len()
            &&& forall|k: int|
                0 <= k < views.len() ==> (#[trigger] views[k]).item == listed(items, owner, pid)[k]
                    && Item::view_of(payloads, views[k].item) == Some(views[k])
        }),
    decreases items.len(),
{
    reveal(Seq::filter);
    let pred = |item: Item| Item::selected(item, owner, pid);
    if items.len() != 0 {
        let init = items.drop_last();
        let last = items.last();
        let views = Item::listing(items, payloads, owner, pid)->Ok_0;
        lemma_listing_is_exact(init, payloads, owner, pid);
        let rest = Item::listing(init, payloads, owner, pid)->Ok_0;
        let kept = init.filter(pred);
        if Item::selected(last, owner, pid) {
            let v = Item::view_of(payloads, last)->Some_0;
            assert(views == seq![v] + rest);
            assert(items.filter(pred) == kept.push(last));
            assert(kept.push(last).reverse() =~= seq![last] + kept.reverse());
            assert forall|k: int| 0 <= k < views.len() implies (#[trigger] views[k]).item == listed(
                items,
                owner,
                pid,
            )[k] && Item::view_of(payloads, views[k].item) == Some(views[k]) by {
                if k > 0 {
                    assert(views[k] == rest[k - 1]);
                }
            }
        } else {
            assert(items.filter(pred) == kept);
        }
    }
}

/// An item is in a listing exactly if it is stored, belongs to the owner
/// and hangs under the parent asked for.
pub proof fn lemma_listing_members(
    items: Seq<Item>,
    payloads: Seq<Items>,
    owner: Id,
    pid: Option<Id>,
    item: Item,
)
    requires
        Item::listing(items, payloads, owner, pid) is Ok,
    ensures
        ({
            let views = Item::listing(items, payloads, owner, pid)->Ok_0;
            (exists|k: int| 0 <= k < views.len() && (#[trigger] views[k]).item == item) <==> (
            items.contains(item) && Item::selected(item, owner, pid))
        }),
{
    let pred = |item: Item| Item::selected(item, owner, pid);
    let views = Item::listing(items, payloads, owner, pid)->Ok_0;
    let kept = items.filter(pred);
    let n = kept.len() as int;
    lemma_listing_is_exact(items, payloads, owner, pid);
    if exists|k: int| 0 <= k < views.len() && (#[trigger] views[k]).item == item {
        let k = choose|k: int| 0 <= k < views.len() && (#[trigger] views[k]).item == item;
        assert(kept[n - 1 - k] == item);
        assert(kept.contains(item));
        items.lemma_filter_contains_rev(pred, item);
        items.lemma_filter_pred(pred, n - 1 - k);
    }
    if items.contains(item) && Item::selected(item, owner, pid) {
        let i = choose|i: int| 0 <= i < items.len() && items[i] == item;
        items.lemma_filter_contains(pred, i);
        let j = choose|j: int| 0 <= j < kept.len() && kept[j] == item;
        assert(views[n - 1 - j].item == item);
    }
}

/// An item that its owner has removed is neither fetched nor listed any more.
pub proof fn lemma_deleted_item_is_gone<M: TypeMarker>(
    items: Seq<Item>,
    payloads: Seq<Items>,
    id: Id,
    owner: Id,
    pid: Option<Id>,
)
    requires
        unique(items),
        unique(payloads),
        spec_delete::<M>(items, payloads, id, owner) is Ok,
    ensures
        ({
            let items = items.remove(index_of(items, id));
            let payloads = payloads.remove(index_of(payloads, id));
            &&& spec_find::<M>(items, payloads, id, owner) == Err::<M, Error>(Error::NotFound)
            &&& Item::listing(items, payloads, owner, pid) matches Ok(views) ==> forall|k: int|
                0 <= k < views.len() ==> (#[trigger] views[k]).item.id != id
        }),
{
    lemma_index_of(items, id);
    lemma_index_of(payloads, id);
    lemma_remove(items, index_of(items, id), id);
    let left = items.remove(index_of(items, id));
    let rest = payloads.remove(index_of(payloads, id));
    lemma_present(left, id);
    if let Ok(views) = Item::listing(left, rest, owner, pid) {
        assert forall|k: int| 0 <= k < views.len() implies (#[trigger] views[k]).item.id != id by {
            lemma_listing_members(left, rest, owner, pid, views[k].item);
            let i = choose|i: int| 0 <= i < left.len() && left[i] == views[k].item;
            assert(left[i].key() != id);
        }
    }
}

/// Parent records and payloads go in pairs: every parent record has the
/// payload of its kind under its identifier, and every payload has a
/// parent record.
pub open spec fn paired(items: Seq<Item>, payloads: Seq<Items>) -> bool {
    &&& forall|i: int| 0 <= i < items.len() ==> Item::view_of(payloads, #[trigger] items[i]) is Some
    &&& forall|j: int| 0 <= j < payloads.len() ==> present(items, (#[trigger] payloads[j]).key())
}

/// Creating an item keeps the pairs.
pub proof fn lemma_create_keeps_pairs<M, N>(
    items: Seq<Item>,
    payloads: Seq<Items>,
    partial: N,
    creator: Id,
    id: Id,
    now: Timestamp,
) where M: TypeMarker, N: IntoModel<M> + ItemLike
    requires
        paired(items, payloads),
        spec_create::<M, N>(items, payloads, partial, creator, id, now) is Ok,
    ensures
        ({
            let made = spec_create::<M, N>(items, payloads, partial, creator, id, now)->Ok_0;
            paired(items.push(made.item), payloads.push(made.payload))
        }),
{
    let item = new_item(partial, creator, id, now);
    let model = partial.spec_into_model(&item);
    let payload = model.pack();
    partial.lemma_into_model(&item);
    model.lemma_pack();
    lemma_tag_of_kind(M::spec_kind(), item.item_type);
    let more_items = items.push(item);
    let more_payloads = payloads.push(payload);
    assert forall|i: int| 0 <= i < more_items.len() implies Item::view_of(
        more_payloads,
        #[trigger] more_items[i],
    ) is Some by {
        if i < items.len() {
            assert(more_items[i] == items[i]);
            assert(Item::view_of(payloads, items[i]) is Some);
            lemma_push(payloads, payload, items[i].id);
            lemma_index_of(payloads, items[i].id);
            assert(more_payloads[index_of(payloads, items[i].id)] == payloads[index_of(
                payloads,
                items[i].id,
            )]);
        } else {
            lemma_push(payloads, payload, id);
        }
    }
    assert forall|j: int| 0 <= j < more_payloads.len() implies present(
        more_items,
        (#[trigger] more_payloads[j]).key(),
    ) by {
        if j < payloads.len() {
            assert(more_payloads[j] == payloads[j]);
            lemma_push(items, item, payloads[j].key());
        } else {
            lemma_push(items, item, id);
        }
    }
}

/// Changing the payload of an item keeps the pairs.
pub proof fn lemma_update_keeps_pairs<M, U>(
    items: Seq<Item>,
    payloads: Seq<Items>,
    id: Id,
    changes: U,
    owner: Id,
) where M: TypeMarker, U: Patch<M>
    requires
        paired(items, payloads),
        spec_update::<M, U>(items, payloads, id, changes, owner) is Ok,
    ensures
        ({
            let changed = spec_update::<M, U>(items, payloads, id, changes, owner)->Ok_0;
            paired(items, payloads.update(index_of(payloads, id), changed.pack()))
        }),
{
    let k = index_of(payloads, id);
    lemma_index_of(payloads, id);
    let before = spec_find::<M>(items, payloads, id, owner)->Ok_0;
    assert(M::unpack(payloads[k]) == Some(before));
    let changed = changes.spec_apply(before);
    M::lemma_unpack(payloads[k]);
    changes.lemma_apply(before);
    changed.lemma_pack();
    let next = payloads.update(k, changed.pack());
    assert(next[k].spec_kind() == payloads[k].spec_kind());
    assert forall|i: int| 0 <= i < items.len() implies Item::view_of(next, #[trigger] items[i])
        is Some by {
        assert(Item::view_of(payloads, items[i]) is Some);
        lemma_update(payloads, k, changed.pack(), items[i].id);
        lemma_index_of(payloads, items[i].id);
        let at = index_of(payloads, items[i].id);
        assert(present(payloads, items[i].id));
        if at != k {
            assert(next[at] == payloads[at]);
        }
    }
    assert forall|j: int| 0 <= j < next.len() implies present(items, (#[trigger] next[j]).key()) by {
        assert(present(items, payloads[j].key()));
    }
}

/// Changing the parent record of an item keeps the pairs.
pub proof fn lemma_item_update_keeps_pairs(
    items: Seq<Item>,
    payloads: Seq<Items>,
    id: Id,
    form: UpdateItemRequest,
    now: Timestamp,
)
    requires
        paired(items, payloads),
        present(items, id),
    ensures
        paired(
            items.update(index_of(items, id), items[index_of(items, id)].patched(form, now)),
            payloads,
        ),
{
    let k = index_of(items, id);
    let changed = items[k].patched(form, now);
    let next = items.update(k, changed);
    lemma_index_of(items, id);
    assert forall|i: int| 0 <= i < next.len() implies Item::view_of(payloads, #[trigger] next[i])
        is Some by {
        assert(Item::view_of(payloads, items[i]) is Some);
    }
    assert forall|j: int| 0 <= j < payloads.len() implies present(
        next,
        (#[trigger] payloads[j]).key(),
    ) by {
        lemma_update(items, k, changed, payloads[j].key());
    }
}

/// Removing an item keeps the pairs.
pub proof fn lemma_delete_keeps_pairs<M: TypeMarker>(
    items: Seq<Item>,
    payloads: Seq<Items>,
    id: Id,
    owner: Id,
)
    requires
        unique(items),
        unique(payloads),
        paired(items, payloads),
        spec_delete::<M>(items, payloads, id, owner) is Ok,
    ensures
        paired(items.remove(index_of(items, id)), payloads.remove(index_of(payloads, id))),
{
    let ki = index_of(items, id);
    let kp = index_of(payloads, id);
    lemma_index_of(items, id);
    lemma_index_of(payloads, id);
    let left = items.remove(ki);
    let rest = payloads.remove(kp);
    assert forall|i: int| 0 <= i < left.len() implies Item::view_of(rest, #[trigger] left[i])
        is Some by {
        let i0 = if i < ki { i } else { i + 1 };
        assert(left[i] == items[i0]);
        assert(Item::view_of(payloads, items[i0]) is Some);
        if i0 < ki {
            assert(items[i0].key() != items[ki].key());
        } else {
            assert(items[ki].key() != items[i0].key());
        }
        lemma_remove(payloads, kp, items[i0].id);
    }
    assert forall|j: int| 0 <= j < rest.len() implies present(left, (#[trigger] rest[j]).key()) by {
        let j0 = if j < kp { j } else { j + 1 };
        assert(rest[j] == payloads[j0]);
        assert(present(items, payloads[j0].key()));
        if j0 < kp {
            assert(payloads[j0].key() != payloads[kp].key());
        } else {
            assert(payloads[kp].key() != payloads[j0].key());
        }
        lemma_remove(items, ki, payloads[j0].key());
    }
}

/// Whoever goes by a name that nobody else has is found by that name and
/// a password that the stored digest matches.
pub proof fn lemma_find_registered(users: Seq<User>, user: User, password: Seq<char>)
    requires
        !name_taken(users, user.username@),
        password_matches(password, user.password@),
    ensures
        spec_find_user(users.push(user), user.username@, password) == Some(user),
    decreases users.len(),
{
    if users.len() != 0 {
        let rest = users.drop_first();
        assert(users[0].username@ != user.username@);
        assert forall|i: int| 0 <= i < rest.len() implies (#[trigger] rest[i]).username@
            != user.username@ by {
            assert(rest[i] == users[i + 1]);
        }
        lemma_find_registered(rest, user, password);
        assert(users.push(user).drop_first() == rest.push(user));
    }
}

/// A token issued to a user is accepted at once and for the thirty days
/// it is good, and asserts what was put into it.
pub proof fn lemma_fresh_token_is_accepted(sub: Id, secret: Seq<u8>, issued: Timestamp, now: Timestamp)
    requires
        issued <= now <= issued + VALIDITY,
    ensures
        spec_decrypt(token_text(claims_for(sub, issued), secret), secret, now) == Ok::<
            Claims,
            Error,
        >(claims_for(sub, issued)),
        claims_for(sub, issued).sub == sub,
{
    lemma_issuer();
    lemma_issued_token_is_accepted(claims_for(sub, issued), secret, now);
}

/// The issuer is the eleven ASCII letters of its name.
pub proof fn lemma_issuer()
    ensures
        issuer().len() == 11,
{
    reveal_strlit("journali.nl");
    let name = "journali.nl";
    assert(is_ascii(name));
    is_ascii_spec_bytes(name);
}

/// Who has registered logs in with the same name and password, and the
/// token resolves back to that user.
pub proof fn lemma_registered_user_logs_in(
    users: Seq<User>,
    user: User,
    password: Seq<char>,
    secret: Seq<u8>,
    issued: Timestamp,
    now: Timestamp,
)
    requires
        !name_taken(users, user.username@),
        !present(users, user.id),
        password_matches(password, user.password@),
        issued <= now <= issued + VALIDITY,
    ensures
        ({
            let users = users.push(user);
            let token = token_text(claims_for(user.id, issued), secret);
            &&& spec_login(users, user.username@, password, secret, issued) == Ok::<Seq<u8>, Error>(
                token,
            )
            &&& spec_authenticate(token, secret, now, users) == Ok::<User, Error>(user)
        }),
{
    lemma_find_registered(users, user, password);
    lemma_fresh_token_is_accepted(user.id, secret, issued, now);
    lemma_push(users, user, user.id);
}

} // verus!
