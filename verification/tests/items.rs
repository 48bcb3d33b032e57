use journali_api::database::Database;
use journali_api::errors::Error;
use journali_api::items::crud2::{create, create_with, delete, find, update, Create, Delete, Find};
use journali_api::items::item::{Item, ItemsByParentRequest, UpdateItemRequest};
use journali_api::items::page::{NewPage, Page, UpdatePage};
use journali_api::items::text_field::{NewTextField, TextField, UpdateTextField};
use journali_api::items::todo::{NewTodo, Todo, UpdateTodo};
use journali_api::items::todo_item::{NewTodoItem, TodoItem, UpdateTodoItem};
use journali_api::items::{ItemLike, ItemTypeNames, Items, TypeMarker, ViewItem};
use journali_api::users::user::User;

const JAN_1_2024: i64 = 1_704_067_200;
const FEB_1_2024: i64 = 1_706_745_600;

fn user(id: u128, name: &str) -> User {
    User { id, username: name.to_string(), password: String::new() }
}

fn new_todo(title: &str, parent: Option<u128>) -> NewTodo {
    NewTodo { title: title.to_string(), parent_id: parent, parent_type: parent.map(|_| 100) }
}

#[test]
fn item_type_tags() {
    assert_eq!(ItemTypeNames::Page.value(), 100);
    assert_eq!(ItemTypeNames::Todo.value(), 200);
    assert_eq!(ItemTypeNames::TodoItem.value(), 210);
    assert_eq!(ItemTypeNames::TextField.value(), 300);
    assert_eq!(ItemTypeNames::from_value(210), Some(ItemTypeNames::TodoItem));
    assert_eq!(ItemTypeNames::from_value(0), None);
    assert_eq!(ItemTypeNames::from_value(101), None);
    assert_eq!(Page::kind(), ItemTypeNames::Page);
    assert_eq!(TextField::kind(), ItemTypeNames::TextField);
}

#[test]
fn create_makes_parent_record_and_payload() {
    let mut db = Database::new();
    let v = create_with::<Todo, NewTodo>(new_todo("groceries", Some(9)), user(1, "a"), 42, 1000, &mut db)
        .unwrap();
    let item = Item {
        id: 42,
        item_type: 200,
        parent_id: Some(9),
        parent_type: Some(100),
        created_at: 1000,
        updated_at: 1000,
        owner_id: 1,
        due_date: None,
    };
    assert_eq!(v, ViewItem { item, payload: Items::Todo(Todo { id: 42, title: "groceries".to_string() }) });
    assert_eq!(db.items.len(), 1);
    assert_eq!(db.items.get(42), Some(item));
    assert_eq!(db.payloads.get(42), Some(Items::Todo(Todo { id: 42, title: "groceries".to_string() })));
}

#[test]
fn create_draws_an_identifier_and_sets_the_owner() {
    let mut db = Database::new();
    let a = create::<Page, NewPage>(
        NewPage { title: "one".to_string(), parent_id: None, parent_type: None },
        user(5, "a"),
        &mut db,
    )
    .unwrap();
    let b = create::<Page, NewPage>(
        NewPage { title: "two".to_string(), parent_id: None, parent_type: None },
        user(5, "a"),
        &mut db,
    )
    .unwrap();
    assert_ne!(a.item.id, b.item.id);
    assert_eq!(a.item.owner_id, 5);
    assert_eq!(a.item.item_type, 100);
    assert_eq!(a.item.created_at, a.item.updated_at);
    assert_eq!(a.item.due_date, None);
    assert_eq!(a.payload, Items::Page(Page { id: a.item.id, title: "one".to_string() }));
    assert_eq!(db.items.len(), 2);
    assert_eq!(db.payloads.len(), 2);
}

#[test]
fn create_refuses_a_taken_identifier_and_stores_nothing() {
    let mut db = Database::new();
    create_with::<Todo, NewTodo>(new_todo("first", None), user(1, "a"), 42, 1000, &mut db).unwrap();
    let again = create_with::<Page, NewPage>(
        NewPage { title: "second".to_string(), parent_id: None, parent_type: None },
        user(2, "b"),
        42,
        2000,
        &mut db,
    );
    assert_eq!(again, Err(Error::Storage));
    assert_eq!(db.items.len(), 1);
    assert_eq!(db.payloads.len(), 1);
    assert_eq!(db.items.get(42).unwrap().owner_id, 1);
}

#[test]
fn create_leaves_no_parent_record_behind_when_the_payload_is_refused() {
    let mut db = Database::new();
    // A payload without a parent record: the store will refuse a second one under 7.
    Page { id: 7, title: "stray".to_string() }.create(&mut db).unwrap();
    let r = create_with::<Todo, NewTodo>(new_todo("t", None), user(1, "a"), 7, 1000, &mut db);
    assert_eq!(r, Err(Error::Storage));
    assert_eq!(db.items.len(), 0);
    assert_eq!(db.payloads.len(), 1);
    assert_eq!(db.payloads.get(7), Some(Items::Page(Page { id: 7, title: "stray".to_string() })));
}

#[test]
fn round_trip_for_every_kind() {
    let mut db = Database::new();
    let a = user(1, "a");
    create_with::<Page, NewPage>(
        NewPage { title: "p".to_string(), parent_id: None, parent_type: None },
        a.clone(),
        10,
        1,
        &mut db,
    )
    .unwrap();
    create_with::<Todo, NewTodo>(new_todo("t", Some(10)), a.clone(), 11, 2, &mut db).unwrap();
    create_with::<TodoItem, NewTodoItem>(
        NewTodoItem { title: "i".to_string(), is_checked: true, parent_id: Some(11), parent_type: Some(200) },
        a.clone(),
        12,
        3,
        &mut db,
    )
    .unwrap();
    create_with::<TextField, NewTextField>(
        NewTextField { text: "x".to_string(), parent_id: Some(10), parent_type: Some(100) },
        a.clone(),
        13,
        4,
        &mut db,
    )
    .unwrap();
    assert_eq!(find::<Page>(10, a.clone(), &db), Ok(Page { id: 10, title: "p".to_string() }));
    assert_eq!(find::<Todo>(11, a.clone(), &db), Ok(Todo { id: 11, title: "t".to_string() }));
    assert_eq!(
        find::<TodoItem>(12, a.clone(), &db),
        Ok(TodoItem { id: 12, title: "i".to_string(), is_checked: true })
    );
    assert_eq!(find::<TextField>(13, a.clone(), &db), Ok(TextField { id: 13, text: "x".to_string() }));
}

#[test]
fn find_under_another_kind_is_not_found() {
    let mut db = Database::new();
    let a = user(1, "a");
    create_with::<Todo, NewTodo>(new_todo("t", None), a.clone(), 11, 2, &mut db).unwrap();
    assert_eq!(find::<Page>(11, a.clone(), &db), Err(Error::NotFound));
    assert_eq!(find::<TodoItem>(11, a.clone(), &db), Err(Error::NotFound));
    assert_eq!(find::<Todo>(12, a, &db), Err(Error::NotFound));
}

#[test]
fn another_user_finds_updates_and_deletes_nothing() {
    let mut db = Database::new();
    let a = user(1, "a");
    let b = user(2, "b");
    create_with::<Todo, NewTodo>(new_todo("mine", None), a.clone(), 11, 2, &mut db).unwrap();
    create_with::<Page, NewPage>(
        NewPage { title: "page".to_string(), parent_id: None, parent_type: None },
        a.clone(),
        12,
        2,
        &mut db,
    )
    .unwrap();
    assert_eq!(find::<Todo>(11, b.clone(), &db), Err(Error::NotFound));
    assert_eq!(
        update::<Todo, UpdateTodo>(11, UpdateTodo { title: Some("theirs".to_string()) }, b.clone(), &mut db),
        Err(Error::NotFound)
    );
    assert_eq!(delete::<Todo>(11, b.clone(), &mut db), Err(Error::NotFound));
    assert_eq!(find::<Page>(12, b.clone(), &db), Err(Error::NotFound));
    assert_eq!(
        update::<Page, UpdatePage>(12, UpdatePage { title: Some("theirs".to_string()) }, b.clone(), &mut db),
        Err(Error::NotFound)
    );
    assert_eq!(delete::<Page>(12, b, &mut db), Err(Error::NotFound));
    // Nothing has changed for the owner.
    assert_eq!(find::<Todo>(11, a.clone(), &db), Ok(Todo { id: 11, title: "mine".to_string() }));
    assert_eq!(find::<Page>(12, a, &db), Ok(Page { id: 12, title: "page".to_string() }));
    assert_eq!(db.items.len(), 2);
}

#[test]
fn a_foreign_item_and_a_missing_one_look_alike() {
    let mut db = Database::new();
    create_with::<Todo, NewTodo>(new_todo("mine", None), user(1, "a"), 11, 2, &mut db).unwrap();
    let foreign = find::<Todo>(11, user(2, "b"), &db);
    let missing = find::<Todo>(99, user(2, "b"), &db);
    assert_eq!(foreign, missing);
    assert_eq!(foreign, Err(Error::NotFound));
}

#[test]
fn update_changes_only_what_is_given() {
    let mut db = Database::new();
    let a = user(1, "a");
    create_with::<TodoItem, NewTodoItem>(
        NewTodoItem { title: "milk".to_string(), is_checked: false, parent_id: None, parent_type: None },
        a.clone(),
        12,
        3,
        &mut db,
    )
    .unwrap();
    let r = update::<TodoItem, UpdateTodoItem>(
        12,
        UpdateTodoItem { title: None, is_checked: Some(true) },
        a.clone(),
        &mut db,
    );
    assert_eq!(r, Ok(TodoItem { id: 12, title: "milk".to_string(), is_checked: true }));
    let r = update::<TodoItem, UpdateTodoItem>(
        12,
        UpdateTodoItem { title: Some("oat milk".to_string()), is_checked: None },
        a.clone(),
        &mut db,
    );
    assert_eq!(r, Ok(TodoItem { id: 12, title: "oat milk".to_string(), is_checked: true }));
    assert_eq!(
        find::<TodoItem>(12, a.clone(), &db),
        Ok(TodoItem { id: 12, title: "oat milk".to_string(), is_checked: true })
    );
    create_with::<TextField, NewTextField>(
        NewTextField { text: "x".to_string(), parent_id: None, parent_type: None },
        a.clone(),
        13,
        4,
        &mut db,
    )
    .unwrap();
    assert_eq!(
        update::<TextField, UpdateTextField>(13, UpdateTextField { text: None }, a.clone(), &mut db),
        Ok(TextField { id: 13, text: "x".to_string() })
    );
    assert_eq!(
        update::<TextField, UpdateTextField>(13, UpdateTextField { text: Some("y".to_string()) }, a, &mut db),
        Ok(TextField { id: 13, text: "y".to_string() })
    );
}

#[test]
fn delete_removes_payload_and_parent_record() {
    let mut db = Database::new();
    let a = user(1, "a");
    create_with::<Todo, NewTodo>(new_todo("one", None), a.clone(), 11, 2, &mut db).unwrap();
    create_with::<Todo, NewTodo>(new_todo("two", None), a.clone(), 12, 3, &mut db).unwrap();
    assert_eq!(delete::<Todo>(11, a.clone(), &mut db), Ok(()));
    assert_eq!(find::<Todo>(11, a.clone(), &db), Err(Error::NotFound));
    assert_eq!(db.items.get(11), None);
    assert_eq!(db.payloads.get(11), None);
    let left = Item::find(&None, a.clone(), &db).unwrap();
    assert_eq!(left.len(), 1);
    assert_eq!(left[0].item.id, 12);
    assert_eq!(delete::<Todo>(11, a.clone(), &mut db), Err(Error::NotFound));
    assert_eq!(find::<Todo>(12, a, &db), Ok(Todo { id: 12, title: "two".to_string() }));
}

#[test]
fn delete_without_payload_removes_nothing() {
    let mut db = Database::new();
    let a = user(1, "a");
    let item = Item { id: 5, item_type: 200, owner_id: 1, ..Item::blank_at(0) };
    item.create(&mut db).unwrap();
    assert_eq!(delete::<Todo>(5, a, &mut db), Err(Error::NotFound));
    assert_eq!(db.items.get(5), Some(item));
}

#[test]
fn listing_is_newest_first_and_only_the_owners() {
    let mut db = Database::new();
    let a = user(1, "a");
    let b = user(2, "b");
    create_with::<Page, NewPage>(
        NewPage { title: "p".to_string(), parent_id: None, parent_type: None },
        a.clone(),
        10,
        1,
        &mut db,
    )
    .unwrap();
    create_with::<Todo, NewTodo>(new_todo("t1", Some(10)), a.clone(), 11, 2, &mut db).unwrap();
    create_with::<Todo, NewTodo>(new_todo("theirs", Some(10)), b.clone(), 12, 3, &mut db).unwrap();
    create_with::<Todo, NewTodo>(new_todo("t2", Some(10)), a.clone(), 13, 4, &mut db).unwrap();
    create_with::<Todo, NewTodo>(new_todo("elsewhere", Some(77)), a.clone(), 14, 5, &mut db).unwrap();

    let under_10 = Item::find(&Some(10), a.clone(), &db).unwrap();
    let ids: Vec<u128> = under_10.iter().map(|v| v.item.id).collect();
    assert_eq!(ids, vec![13, 11]);
    assert_eq!(under_10[0].payload, Items::Todo(Todo { id: 13, title: "t2".to_string() }));
    assert_eq!(under_10[1].payload, Items::Todo(Todo { id: 11, title: "t1".to_string() }));

    let all = Item::find(&None, a.clone(), &db).unwrap();
    let ids: Vec<u128> = all.iter().map(|v| v.item.id).collect();
    assert_eq!(ids, vec![14, 13, 11, 10]);
    assert_eq!(all[3].payload, Items::Page(Page { id: 10, title: "p".to_string() }));

    let theirs = Item::find(&ItemsByParentRequest { parent_id: Some(10) }.parent_id, b, &db).unwrap();
    let ids: Vec<u128> = theirs.iter().map(|v| v.item.id).collect();
    assert_eq!(ids, vec![12]);

    assert_eq!(Item::find(&Some(12345), a, &db), Ok(vec![]));
    assert_eq!(Item::find(&None, user(3, "c"), &db), Ok(vec![]));
}

#[test]
fn listing_reports_an_unknown_tag_as_integrity_error() {
    let mut db = Database::new();
    let a = user(1, "a");
    create_with::<Todo, NewTodo>(new_todo("fine", None), a.clone(), 11, 2, &mut db).unwrap();
    Item { id: 5, item_type: 999, owner_id: 1, ..Item::blank_at(0) }.create(&mut db).unwrap();
    assert_eq!(Item::find(&None, a.clone(), &db), Err(Error::Integrity));
    // Another owner's listing does not touch the broken record.
    assert_eq!(Item::find(&None, user(2, "b"), &db), Ok(vec![]));
    assert_eq!(Item::load(db.items.get(5).unwrap(), &db), Err(Error::Integrity));
}

#[test]
fn listing_reports_a_missing_or_mismatched_payload_as_integrity_error() {
    let mut db = Database::new();
    let a = user(1, "a");
    Item { id: 5, item_type: 200, owner_id: 1, ..Item::blank_at(0) }.create(&mut db).unwrap();
    assert_eq!(Item::find(&None, a.clone(), &db), Err(Error::Integrity));
    Page { id: 5, title: "not a todo".to_string() }.create(&mut db).unwrap();
    assert_eq!(Item::find(&None, a, &db), Err(Error::Integrity));
}

#[test]
fn has_owner_checks_identifier_owner_and_kind() {
    let mut db = Database::new();
    create_with::<Todo, NewTodo>(new_todo("t", None), user(1, "a"), 11, 2, &mut db).unwrap();
    assert!(Item::has_owner::<Todo>(11, 1, &db));
    assert!(!Item::has_owner::<Todo>(11, 2, &db));
    assert!(!Item::has_owner::<Page>(11, 1, &db));
    assert!(!Item::has_owner::<Todo>(12, 1, &db));
}

#[test]
fn todo_due_date_scenario() {
    let mut db = Database::new();
    let u1 = user(1, "u1");
    let u2 = user(2, "u2");
    let made = create_with::<Todo, NewTodo>(new_todo("taxes", None), u1.clone(), 50, 900, &mut db).unwrap();
    assert_eq!(made.item.due_date, None);
    let due = UpdateItemRequest { parent_id: None, parent_type: None, due_date: Some(JAN_1_2024) };
    let set = Item::update_at(&50, &due, u1.id, 1000, &mut db).unwrap();
    assert_eq!(set.due_date, Some(JAN_1_2024));

    let later = UpdateItemRequest { parent_id: None, parent_type: None, due_date: Some(FEB_1_2024) };
    let moved = Item::update_at(&50, &later, u1.id, 2000, &mut db).unwrap();
    assert_eq!(moved.due_date, Some(FEB_1_2024));
    assert_eq!(moved.updated_at, 2000);
    assert_eq!(moved.created_at, 900);
    let seen = Item::find(&None, u1.clone(), &db).unwrap();
    assert_eq!(seen[0].item.due_date, Some(FEB_1_2024));
    assert_eq!(find::<Todo>(50, u1.clone(), &db), Ok(Todo { id: 50, title: "taxes".to_string() }));

    // The same change with the other user's identity, on a record still due in January.
    let mut db = Database::new();
    create_with::<Todo, NewTodo>(new_todo("taxes", None), u1.clone(), 50, 900, &mut db).unwrap();
    Item::update_at(&50, &due, u1.id, 1000, &mut db).unwrap();
    assert_eq!(Item::update_at(&50, &later, u2.id, 2000, &mut db), Err(Error::NotFound));
    assert_eq!(Item::update(&50, &later, u2.id, &mut db), Err(Error::NotFound));
    assert_eq!(
        update::<Todo, UpdateTodo>(50, UpdateTodo { title: Some("x".to_string()) }, u2, &mut db),
        Err(Error::NotFound)
    );
    let stored = db.items.get(50).unwrap();
    assert_eq!(stored.due_date, Some(JAN_1_2024));
    assert_eq!(stored.updated_at, 1000);
}

#[test]
fn item_update_keeps_what_is_not_given() {
    let mut db = Database::new();
    let a = user(1, "a");
    create_with::<Todo, NewTodo>(new_todo("t", Some(10)), a.clone(), 11, 2, &mut db).unwrap();
    let form = UpdateItemRequest { parent_id: Some(20), parent_type: None, due_date: None };
    let r = Item::update_at(&11, &form, 1, 7, &mut db).unwrap();
    assert_eq!(
        r,
        Item {
            id: 11,
            item_type: 200,
            parent_id: Some(20),
            parent_type: Some(100),
            created_at: 2,
            updated_at: 7,
            owner_id: 1,
            due_date: None,
        }
    );
    assert_eq!(Item::update_at(&12, &form, 1, 7, &mut db), Err(Error::NotFound));
    let now = Item::update(&11, &form, 1, &mut db).unwrap();
    assert_eq!(now.parent_id, Some(20));
    assert!(now.updated_at > 1_600_000_000);
}

#[test]
fn item_like_views_of_records_and_descriptors() {
    let item = Item {
        id: 11,
        item_type: 200,
        parent_id: Some(20),
        parent_type: Some(100),
        created_at: 2,
        updated_at: 7,
        owner_id: 1,
        due_date: Some(3),
    };
    assert_eq!(item.as_item(), item);
    assert_eq!(item.id(), 11);
    let fresh = item.as_new_item();
    assert_eq!(Item { id: 11, ..fresh }, item);
    assert_ne!(item.as_new_item().id, fresh.id);

    let d = new_todo("t", Some(20));
    assert_eq!(d.id(), 0);
    assert_eq!(d.item_type(), 200);
    assert_eq!(d.parent_id(), Some(20));
    assert_eq!(d.parent_type(), Some(100));
    let blank = d.as_item();
    assert_eq!(blank.id, 0);
    assert_eq!(blank.item_type, 200);
    assert_eq!(blank.parent_id, Some(20));
    assert_eq!(blank.owner_id, 0);
    assert_eq!(blank.due_date, None);
    assert_eq!(blank.created_at, blank.updated_at);
    assert!(blank.created_at > 1_600_000_000);
    assert_ne!(d.as_new_item().id, d.as_new_item().id);
    assert_eq!(
        d.as_item_at(77),
        Item {
            id: 0,
            item_type: 200,
            parent_id: Some(20),
            parent_type: Some(100),
            created_at: 77,
            updated_at: 77,
            owner_id: 0,
            due_date: None,
        }
    );
    assert_eq!(d.as_item_at(77), Item::describe(0, 200, Some(20), Some(100), 77));
    assert_eq!(Item { created_at: 77, updated_at: 77, ..d.as_item() }, d.as_item_at(77));
    assert_eq!(Item { id: 0, created_at: 77, updated_at: 77, ..d.as_new_item() }, d.as_item_at(77));
    assert_eq!(item.as_item_at(77), item);
    assert_eq!(item.with_id(3), Item { id: 3, ..item });
    assert_eq!(Item::default().item_type, 0);
    assert_eq!(Item::blank_at(5), Item { created_at: 5, updated_at: 5, ..Item::blank_at(0) });
}

#[test]
fn typed_stores_by_themselves() {
    let mut db = Database::new();
    assert_eq!(Todo { id: 1, title: "a".to_string() }.create(&mut db), Ok(Todo { id: 1, title: "a".to_string() }));
    assert_eq!(Todo { id: 1, title: "b".to_string() }.create(&mut db), Err(Error::Storage));
    assert_eq!(Todo::find(1, &db), Ok(Todo { id: 1, title: "a".to_string() }));
    assert_eq!(Page::find(1, &db), Err(Error::NotFound));
    assert_eq!(Page::delete(1, &mut db), Err(Error::NotFound));
    assert_eq!(Todo::delete(1, &mut db), Ok(()));
    assert_eq!(Todo::find(1, &db), Err(Error::NotFound));
    assert_eq!(Todo { id: 3, title: "c".to_string() }.into_items(), Items::Todo(Todo { id: 3, title: "c".to_string() }));
    assert_eq!(Page::from_items(Items::Todo(Todo { id: 3, title: "c".to_string() })), None);
    assert_eq!(Items::Todo(Todo { id: 3, title: "c".to_string() }).kind(), ItemTypeNames::Todo);
}

#[test]
fn parent_record_store_by_itself() {
    let mut db = Database::new();
    let item = Item { id: 5, item_type: 100, owner_id: 1, ..Item::blank_at(0) };
    assert_eq!(item.create(&mut db), Ok(item));
    assert_eq!(item.create(&mut db), Err(Error::Storage));
    assert_eq!(Item::delete::<Todo>(5, &mut db), Err(Error::NotFound));
    assert_eq!(Item::delete::<Page>(6, &mut db), Err(Error::NotFound));
    assert_eq!(Item::delete::<Page>(5, &mut db), Ok(()));
    assert_eq!(db.items.len(), 0);
}
