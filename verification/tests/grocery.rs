use teddy_sync::error::AppError;
use teddy_sync::instant::Instant;
use teddy_sync::sync::batching::BatchWrite;
use teddy_sync::sync::deletes::{soft_delete_version, UNSYNCED_DELETE_VERSION};
use teddy_sync::sync::grocery::access::{lists_named, rows_to_read};
use teddy_sync::sync::grocery::affected_users::{
    find_affected_grocery_users, touched_rows, Membership, TouchedList,
};
use teddy_sync::sync::grocery::categories::{
    process_category_changes, CategoryChangeDelta, CategoryData, CategoryWrite,
};
use teddy_sync::sync::grocery::grocery_item_store_info::{
    items_to_read, parent_lists, process_grocery_item_store_info_changes, GroceryItemStoreInfoChangeDelta,
    GroceryItemStoreInfoData, ParentItem, StoreInfoRow, StoreInfoWrite,
};
use teddy_sync::sync::grocery::grocery_items::{
    backfill_store_info, names_to_look_up, process_grocery_changes, GroceryChangeDelta,
    GroceryItemData, ItemStore, ItemWrite, StoreMapping,
};
use teddy_sync::sync::grocery::grocery_list_members::{
    process_grocery_list_member_changes, GroceryListMemberChangeDelta, GroceryListMemberData,
    MemberWrite, OwnMembership,
};
use teddy_sync::sync::grocery::grocery_lists::{
    process_grocery_list_changes, GroceryListChangeDelta, GroceryListData, ListMembership,
    ListWrite,
};
use teddy_sync::sync::grocery::remote_mutations::{
    cut_changed, fetch_remote_grocery_mutations, row_changes, Changed, ChangedPage, GroceryRows,
};
use teddy_sync::sync::grocery::stores::{
    process_store_changes, StoreChangeDelta, StoreData, StoreRow, StoreWrite,
};
use teddy_sync::sync::request::SyncRequest;
use teddy_sync::sync::tally::{fill_versions, versions_for, DeletedRow, Tally};
use teddy_sync::sync::types::{ChangeDelta, OperationType, Payload, SyncState};
use teddy_sync::sync::versioning::{advance_version, assign_version, seed_version, VersionBounds};

const BOUNDS: VersionBounds = VersionBounds { max_seed: 100 };

fn text(s: &str) -> String {
    s.to_string()
}

fn some(s: &str) -> Option<String> {
    Some(s.to_string())
}

fn change<T>(id: &str, operation_type: OperationType, data: Payload<T>) -> ChangeDelta<T> {
    ChangeDelta { id: text(id), operation_type, version: 1, data }
}

fn insert<T>(id: &str, item: T) -> ChangeDelta<T> {
    change(id, OperationType::Insert, Payload::Item(item))
}

fn update<T>(id: &str, item: T) -> ChangeDelta<T> {
    change(id, OperationType::Update, Payload::Item(item))
}

fn delete<T>(id: &str) -> ChangeDelta<T> {
    change(id, OperationType::Delete, Payload::Missing)
}

fn copy_of<T>(id: &str) -> ChangeDelta<T> {
    change(id, OperationType::Update, Payload::Missing)
}

fn versions<W, T>(tally: &Tally<W, T>) -> Vec<(&str, i32)> {
    tally.upload_status.iter().map(|s| (s.id.as_str(), s.version)).collect()
}

fn runs<W: BatchWrite, T>(tally: &Tally<W, T>) -> Vec<usize> {
    tally.runs.iter().map(|run| run.len()).collect()
}

fn refused<T>(r: Result<T, AppError>, status: u16) -> String {
    match r {
        Ok(_) => panic!("expected a refusal"),
        Err(e) => {
            assert_eq!(e.status(), status, "{:?}", e);
            match e {
                AppError::BadRequest(m) | AppError::Forbidden(m) => m,
                other => panic!("unexpected {:?}", other),
            }
        }
    }
}

// Versions

#[test]
fn a_stored_row_moves_one_version_on_whatever_the_client_says() {
    assert_eq!(assign_version(BOUNDS, "Store", "s", Some(4), 1).unwrap(), 5);
    assert_eq!(assign_version(BOUNDS, "Store", "s", Some(4), 99).unwrap(), 5);
    assert_eq!(advance_version("Store", "s", 4).unwrap(), 5);
    refused(advance_version("Store", "s", i32::MAX), 400);
}

#[test]
fn a_new_row_starts_at_the_clients_number_within_bounds() {
    assert_eq!(seed_version(BOUNDS, "Store", "s", 0).unwrap(), 0);
    assert_eq!(seed_version(BOUNDS, "Store", "s", 100).unwrap(), 100);
    let said = refused(seed_version(BOUNDS, "Store", "s", 101), 400);
    assert!(said.starts_with("Store s"), "{}", said);
    refused(assign_version(BOUNDS, "Store", "s", None, -1), 400);
}

// Lists

fn list(id: &str, owner: Option<&str>, version: i32) -> GroceryListData {
    GroceryListData {
        id: text(id),
        name: text("My Grocery List"),
        owner_id: owner.map(text),
        created_at: 123456789,
        version,
        is_deleted: false,
        sync_state: SyncState::Synced,
    }
}

fn membership(list: &str, role: &str, is_deleted: bool) -> ListMembership {
    ListMembership { id: format!("{}-m", list), list_id: text(list), role: text(role), is_deleted }
}

fn lists(
    changes: Vec<GroceryListChangeDelta>,
    rows: Vec<GroceryListData>,
    memberships: Vec<ListMembership>,
) -> Result<Tally<ListWrite, GroceryListData>, AppError> {
    process_grocery_list_changes("user-1", &changes, &rows, &memberships, BOUNDS)
}

#[test]
fn a_new_list_brings_its_creators_membership() {
    let tally = lists(vec![insert("glist-1", list("glist-1", Some("user-1"), 1))], vec![], vec![])
        .unwrap_or_else(|e| panic!("{:?}", e));
    assert_eq!(tally.success_ids, vec!["glist-1"]);
    assert_eq!(versions(&tally), vec![("glist-1", 1)]);
    match &tally.runs[0][0] {
        ListWrite::Upsert(row) => {
            assert!(row.seeds_member);
            assert_eq!(row.version, 1);
        }
        other => panic!("expected an upsert, got {:?}", other),
    }
}

#[test]
fn a_list_is_updated_by_its_members() {
    let rows = || vec![list("glist-1", Some("user-9"), 1)];
    let changed = || vec![update("glist-1", list("glist-1", Some("user-9"), 2))];
    let tally = lists(changed(), rows(), vec![membership("glist-1", "MEMBER", false)])
        .unwrap_or_else(|e| panic!("{:?}", e));
    assert_eq!(versions(&tally), vec![("glist-1", 2)]);
    refused(lists(changed(), rows(), vec![]), 403);
    refused(lists(changed(), rows(), vec![membership("glist-1", "MEMBER", true)]), 403);
}

/// An insert writes over a row that stands under its id, so it needs what an update needs.
#[test]
fn an_insert_over_somebody_elses_list_is_refused() {
    let sent = || vec![insert("glist-1", list("glist-1", Some("user-1"), 2))];
    let theirs = || vec![list("glist-1", Some("user-9"), 1)];
    refused(lists(sent(), theirs(), vec![]), 403);
    refused(lists(sent(), theirs(), vec![membership("glist-1", "MEMBER", true)]), 403);
    let shared = lists(sent(), theirs(), vec![membership("glist-1", "MEMBER", false)])
        .unwrap_or_else(|e| panic!("{:?}", e));
    assert_eq!(versions(&shared), vec![("glist-1", 2)]);
    // A retried insert of one's own list goes through.
    let own = lists(sent(), vec![list("glist-1", Some("user-1"), 1)], vec![])
        .unwrap_or_else(|e| panic!("{:?}", e));
    assert_eq!(versions(&own), vec![("glist-1", 2)]);
}

#[test]
fn a_list_change_is_held_to_the_row_its_document_names() {
    let sent = || vec![insert("mine", list("theirs", Some("user-1"), 1))];
    refused(lists(sent(), vec![list("theirs", Some("user-9"), 4)], vec![]), 403);
    let allowed = lists(
        sent(),
        vec![list("theirs", Some("user-9"), 4)],
        vec![membership("theirs", "MEMBER", false)],
    )
    .unwrap_or_else(|e| panic!("{:?}", e));
    assert_eq!(versions(&allowed)[0].1, 5);
    assert_eq!(rows_to_read(&sent()), vec!["mine", "theirs"]);
}

#[test]
fn an_owner_deletes_a_list_and_a_member_leaves_it() {
    let removed = || vec![delete("glist-1")];
    let owned = lists(
        removed(),
        vec![list("glist-1", Some("user-1"), 3)],
        vec![membership("glist-1", "OWNER", false)],
    )
    .unwrap_or_else(|e| panic!("{:?}", e));
    assert!(matches!(&owned.runs[0][0], ListWrite::OwnerDelete { id } if id == "glist-1"));
    assert_eq!(owned.awaiting, vec![0]);

    let shared = lists(
        removed(),
        vec![list("glist-1", Some("user-9"), 3)],
        vec![membership("glist-1", "MEMBER", false)],
    )
    .unwrap_or_else(|e| panic!("{:?}", e));
    assert!(matches!(&shared.runs[0][0], ListWrite::Leave { member_id } if member_id == "glist-1-m"));
    assert_eq!(versions(&shared), vec![("glist-1", 3)]);
    assert!(shared.awaiting.is_empty());

    refused(lists(removed(), vec![list("glist-1", Some("user-9"), 3)], vec![]), 403);
}

#[test]
fn a_delete_of_a_list_nobody_has_is_done_already() {
    let tally = lists(vec![delete("glist-1")], vec![], vec![]).unwrap_or_else(|e| panic!("{:?}", e));
    assert_eq!(versions(&tally), vec![("glist-1", UNSYNCED_DELETE_VERSION)]);
    assert!(tally.runs.is_empty());
}

#[test]
fn an_update_without_data_asks_for_the_servers_copy() {
    let tally = lists(
        vec![copy_of("glist-1"), copy_of("unknown")],
        vec![list("glist-1", Some("user-1"), 7)],
        vec![],
    )
    .unwrap_or_else(|e| panic!("{:?}", e));
    assert_eq!(tally.success_ids, vec!["glist-1"]);
    assert!(tally.upload_status.is_empty());
    assert_eq!(tally.remote_changes.len(), 1);
    assert_eq!(tally.remote_changes[0].version, 7);
    assert_eq!(tally.remote_changes[0].operation_type, OperationType::Update);
}

#[test]
fn a_payload_that_does_not_read_refuses_the_batch() {
    let said = refused(
        lists(
            vec![
                insert("glist-1", list("glist-1", Some("user-1"), 1)),
                change("glist-2", OperationType::Insert, Payload::Unreadable(text("missing field `name`"))),
            ],
            vec![],
            vec![],
        ),
        400,
    );
    assert_eq!(said, "Invalid grocery list payload for glist-2: missing field `name`");
    refused(
        lists(vec![change("g", OperationType::Insert, Payload::Null(text("null")))], vec![], vec![]),
        400,
    );
}

// Members

fn member(id: &str, user: &str, role: &str, version: i32) -> GroceryListMemberData {
    GroceryListMemberData {
        id: text(id),
        list_id: text("glist-2"),
        user_id: text(user),
        role: text(role),
        joined_at: 123456,
        version,
        is_deleted: false,
        sync_state: SyncState::Synced,
    }
}

fn own(row: GroceryListMemberData) -> OwnMembership {
    OwnMembership { row }
}

fn members(
    changes: Vec<GroceryListMemberChangeDelta>,
    rows: Vec<GroceryListMemberData>,
    mine: Vec<OwnMembership>,
) -> Result<Tally<MemberWrite, GroceryListMemberData>, AppError> {
    process_grocery_list_member_changes("user-1", &changes, &rows, &mine)
}

#[test]
fn sync_grants_no_membership() {
    let said =
        refused(members(vec![insert("m", member("m", "user-2", "MEMBER", 1))], vec![], vec![]), 403);
    assert!(said.contains("invite code"), "{}", said);
    // One's own membership that exists already is sent back as the server has it.
    let tally = members(
        vec![insert("mine", member("mine", "user-1", "OWNER", 1))],
        vec![],
        vec![own(member("glist-2-member-user-1", "user-1", "MEMBER", 4))],
    )
    .unwrap_or_else(|e| panic!("{:?}", e));
    assert_eq!(tally.success_ids, vec!["mine"]);
    assert_eq!(tally.remote_changes[0].id, "glist-2-member-user-1");
    assert_eq!(tally.remote_changes[0].data.role, "MEMBER");
    assert!(tally.runs.is_empty());
}

#[test]
fn a_role_is_the_servers_to_give() {
    let tally = members(
        vec![update("m", member("m", "user-1", "OWNER", 1))],
        vec![member("m", "user-1", "MEMBER", 2)],
        vec![],
    )
    .unwrap_or_else(|e| panic!("{:?}", e));
    assert_eq!(versions(&tally), vec![("m", 3)]);
    assert_eq!(tally.remote_changes[0].data.role, "MEMBER");
    assert_eq!(tally.remote_changes[0].version, 3);
}

#[test]
fn a_membership_is_neither_reassigned_nor_restored_by_sync() {
    let mut moved = member("m", "user-1", "MEMBER", 1);
    moved.list_id = text("glist-9");
    let rows = || vec![member("m", "user-1", "MEMBER", 2)];
    assert!(refused(members(vec![update("m", moved)], rows(), vec![]), 403).contains("reassign"));

    let mut gone = member("m", "user-1", "MEMBER", 2);
    gone.is_deleted = true;
    let said = refused(
        members(vec![update("m", member("m", "user-1", "MEMBER", 1))], vec![gone], vec![]),
        403,
    );
    assert!(said.contains("joining the list again"), "{}", said);
    // A stranger manages nothing.
    refused(
        members(vec![delete("m")], vec![member("m", "user-2", "MEMBER", 2)], vec![]),
        403,
    );
}

#[test]
fn a_member_of_the_list_may_remove_another() {
    let tally = members(
        vec![delete("m")],
        vec![member("m", "user-2", "MEMBER", 2)],
        vec![own(member("mine", "user-1", "MEMBER", 1))],
    )
    .unwrap_or_else(|e| panic!("{:?}", e));
    assert!(matches!(&tally.runs[0][0], MemberWrite::Delete { id } if id == "m"));
    assert_eq!(tally.awaiting, vec![0]);
}

// Stores

fn store(id: &str, version: i32) -> StoreData {
    StoreData {
        id: text(id),
        name: text("Supermarket"),
        position: 1,
        is_default_supported: true,
        user_id: None,
        version,
        is_deleted: false,
        sync_state: SyncState::Synced,
        list_id: None,
    }
}

fn stored(id: &str, owner: Option<&str>, version: i32) -> StoreRow {
    StoreRow { id: text(id), user_id: owner.map(text), version }
}

fn stores(
    changes: Vec<StoreChangeDelta>,
    rows: Vec<StoreRow>,
) -> Result<Tally<StoreWrite, StoreData>, AppError> {
    process_store_changes("user-1", &changes, &rows, BOUNDS)
}

#[test]
fn a_store_written_twice_in_a_batch_is_numbered_twice() {
    let tally = stores(
        vec![insert("10", store("10", 1)), update("10", store("10", 1)), delete("10"), copy_of("10")],
        vec![],
    )
    .unwrap_or_else(|e| panic!("{:?}", e));
    assert_eq!(versions(&tally), vec![("10", 1), ("10", 2), ("10", 3), ("10", 4)]);
    // Two writes to one row never share a statement.
    assert_eq!(runs(&tally), vec![1, 1, 1, 1]);
    assert!(matches!(&tally.runs[3][0], StoreWrite::VersionBump { version: 4, .. }));
}

#[test]
fn writes_of_one_kind_to_different_rows_share_a_statement() {
    let tally = stores(
        vec![insert("10", store("10", 1)), insert("11", store("11", 1)), delete("12")],
        vec![stored("12", Some("user-1"), 5)],
    )
    .unwrap_or_else(|e| panic!("{:?}", e));
    assert_eq!(runs(&tally), vec![2, 1]);
    assert_eq!(versions(&tally), vec![("10", 1), ("11", 1), ("12", 6)]);
}

#[test]
fn a_store_is_its_owners() {
    refused(stores(vec![delete("10")], vec![stored("10", Some("user-2"), 1)]), 403);
    refused(stores(vec![update("10", store("10", 2))], vec![stored("10", None, 1)]), 403);
    let gone = stores(vec![delete("10")], vec![]).unwrap_or_else(|e| panic!("{:?}", e));
    assert_eq!(versions(&gone), vec![("10", UNSYNCED_DELETE_VERSION)]);
}

// Categories

fn category(id: &str, owner: Option<&str>, list: Option<&str>, version: i32) -> CategoryData {
    CategoryData {
        id: text(id),
        name: text("Produce"),
        position: 2,
        user_id: owner.map(text),
        icon: None,
        version,
        is_deleted: false,
        sync_state: SyncState::Synced,
        list_id: list.map(text),
    }
}

fn categories(
    changes: Vec<CategoryChangeDelta>,
    rows: Vec<CategoryData>,
    lists: Vec<String>,
) -> Result<Tally<CategoryWrite, CategoryData>, AppError> {
    process_category_changes("user-1", &changes, &rows, &lists, BOUNDS)
}

#[test]
fn a_category_goes_onto_a_list_the_user_is_on() {
    let added = || vec![insert("20", category("20", None, Some("glist"), 1))];
    refused(categories(added(), vec![], vec![]), 403);
    let tally =
        categories(added(), vec![], vec![text("glist")]).unwrap_or_else(|e| panic!("{:?}", e));
    assert_eq!(versions(&tally), vec![("20", 1)]);
}

#[test]
fn a_category_change_is_held_to_the_row_its_document_names() {
    let sent = || vec![insert("mine", category("theirs", None, None, 1))];
    refused(categories(sent(), vec![category("theirs", Some("user-2"), None, 4)], vec![]), 403);
    refused(
        categories(sent(), vec![category("theirs", Some("user-2"), Some("glist"), 4)], vec![]),
        403,
    );
    let shared = categories(
        sent(),
        vec![category("theirs", Some("user-2"), Some("glist"), 4)],
        vec![text("glist")],
    )
    .unwrap_or_else(|e| panic!("{:?}", e));
    assert_eq!(versions(&shared)[0].1, 5);
    let own = categories(sent(), vec![category("theirs", Some("user-1"), None, 4)], vec![])
        .unwrap_or_else(|e| panic!("{:?}", e));
    assert_eq!(versions(&own)[0].1, 5);
}

#[test]
fn deletes_report_the_versions_their_statement_gave() {
    let mut gone = category("22", Some("user-1"), None, 9);
    gone.is_deleted = true;
    let mut tally = categories(
        vec![delete("20"), delete("21"), delete("22")],
        vec![category("20", Some("user-1"), None, 4), gone],
        vec![],
    )
    .unwrap_or_else(|e| panic!("{:?}", e));
    assert_eq!(tally.awaiting, vec![0, 1]);
    assert_eq!(runs(&tally), vec![2]);
    let returned = vec![DeletedRow { name: text("20"), version: 5 }];
    let found = versions_for("category", &vec![text("20"), text("21")], &returned);
    assert_eq!(found, vec![5, UNSYNCED_DELETE_VERSION]);
    let places = std::mem::take(&mut tally.awaiting);
    fill_versions(&mut tally.upload_status, &places, &found);
    assert_eq!(versions(&tally), vec![("20", 5), ("21", 1), ("22", 9)]);
    assert_eq!(soft_delete_version("category", "20", Some(8)), 8);
}

#[test]
fn a_batch_looks_up_the_lists_its_changes_and_rows_name() {
    let named = lists_named(
        &vec![insert("20", category("20", None, Some("a"), 1)), delete("21")],
        &vec![category("21", None, Some("b"), 1), category("99", None, Some("c"), 1)],
    );
    assert!(named.contains(&text("a")) && named.contains(&text("b")));
    assert!(!named.contains(&text("c")));
}

// Items

fn item(id: &str, name: &str, list: Option<&str>, version: i32) -> GroceryItemData {
    GroceryItemData {
        id: text(id),
        name: text(name),
        quantity: text("5"),
        is_bought: false,
        created_at: 1000,
        position: 1,
        category_id: None,
        times_bought: 0,
        user_id: some("user-1"),
        is_active: true,
        list_id: list.map(text),
        unit: None,
        notes: None,
        version,
        is_deleted: false,
        sync_state: SyncState::Synced,
    }
}

fn items(
    changes: Vec<GroceryChangeDelta>,
    rows: Vec<GroceryItemData>,
    lists: Vec<String>,
) -> Result<Tally<ItemWrite, GroceryItemData>, AppError> {
    process_grocery_changes("user-1", &changes, &rows, &lists, BOUNDS)
}

#[test]
fn an_item_on_a_list_is_everybodys_on_that_list() {
    let rows = || {
        let mut row = item("50", "Apples", Some("glist-3"), 3);
        row.user_id = some("user-2");
        vec![row]
    };
    let changed = || vec![update("50", item("50", "Green Apples", Some("glist-3"), 1))];
    let tally =
        items(changed(), rows(), vec![text("glist-3")]).unwrap_or_else(|e| panic!("{:?}", e));
    assert_eq!(versions(&tally), vec![("50", 4)]);
    refused(items(changed(), rows(), vec![]), 403);
    let said = refused(items(vec![delete("50")], rows(), vec![]), 403);
    assert!(said.contains("glist-3"), "{}", said);
}

#[test]
fn an_item_off_every_list_is_its_owners() {
    let rows = |owner: &str| {
        let mut row = item("50", "Apples", None, 3);
        row.user_id = some(owner);
        vec![row]
    };
    let mine = items(vec![delete("50")], rows("user-1"), vec![]).unwrap_or_else(|e| panic!("{:?}", e));
    assert!(matches!(&mine.runs[0][0], ItemWrite::Delete { id } if id == "50"));
    refused(items(vec![delete("50")], rows("user-2"), vec![]), 403);
    refused(items(vec![copy_of("50")], rows("user-2"), vec![]), 403);
}

/// An insert writes over an item that stands under its id, so it needs what an update needs.
#[test]
fn an_insert_over_somebody_elses_item_is_refused() {
    let row = |list: Option<&str>| {
        let mut row = item("50", "Apples", list, 3);
        row.user_id = some("user-2");
        vec![row]
    };
    let sent = |list: Option<&str>| vec![insert("50", item("50", "Pears", list, 1))];
    let said = refused(items(sent(None), row(Some("glist-3")), vec![]), 403);
    assert!(said.contains("glist-3"), "{}", said);
    refused(items(sent(Some("glist-1")), row(Some("glist-3")), vec![text("glist-1")]), 403);
    refused(items(sent(None), row(None), vec![]), 403);
    let shared = items(sent(Some("glist-3")), row(Some("glist-3")), vec![text("glist-3")])
        .unwrap_or_else(|e| panic!("{:?}", e));
    assert_eq!(versions(&shared), vec![("50", 4)]);
}

#[test]
fn an_item_change_is_held_to_the_row_its_document_names() {
    for sent in [insert("mine", item("50", "Pears", None, 1)), update("mine", item("50", "Pears", None, 1))] {
        let mut theirs = item("50", "Apples", Some("glist-3"), 3);
        theirs.user_id = some("user-2");
        let changes = vec![sent];
        assert_eq!(rows_to_read(&changes), vec!["mine", "50"]);
        let rows = vec![theirs, item("mine", "Plums", None, 8)];
        assert_eq!(lists_named(&changes, &rows), vec!["glist-3"]);
        refused(process_grocery_changes("user-1", &changes, &rows, &vec![], BOUNDS), 403);
        // The number is the written row's next one.
        let on = process_grocery_changes("user-1", &changes, &rows, &vec![text("glist-3")], BOUNDS)
            .unwrap_or_else(|e| panic!("{:?}", e));
        assert_eq!(versions(&on)[0].1, 4);
    }
}

#[test]
fn a_new_item_is_stocked_where_its_name_was_bought_before() {
    let changes = vec![
        insert("50", item("50", "ÄPFEL", None, 1)),
        insert("51", item("51", "Milk", None, 1)),
        update("52", item("52", "Bread", None, 1)),
    ];
    let rows = vec![item("52", "Bread", None, 1)];
    let mut names = names_to_look_up(&changes, &rows);
    names.sort();
    assert_eq!(names, vec!["milk", "äpfel"]);

    let mapping = |name: &str, store: &str| StoreMapping {
        name_key: text(name),
        store_id: text(store),
        price: Some(2),
        is_available: true,
    };
    let mappings = vec![
        mapping("äpfel", "a"),
        mapping("äpfel", "b"),
        mapping("äpfel", "a"),
        mapping("bread", "a"),
        mapping("milk", "a"),
    ];
    let taken = vec![ItemStore { grocery_item_id: text("51"), store_id: text("a") }];
    let seeds = backfill_store_info(&changes, &rows, &mappings, &taken);
    let pairs: Vec<(&str, &str)> =
        seeds.iter().map(|s| (s.grocery_item_id.as_str(), s.store_id.as_str())).collect();
    assert_eq!(pairs, vec![("50", "a"), ("50", "b")]);
    assert_eq!(seeds[0].price, Some(2));
}

// Store entries

fn entry_data(item: &str, store: &str, version: i32) -> GroceryItemStoreInfoData {
    GroceryItemStoreInfoData {
        grocery_item_id: text(item),
        store_id: text(store),
        list_id: None,
        price: Some(199),
        is_available: true,
        user_id: None,
        version,
        is_deleted: false,
        sync_state: SyncState::Synced,
    }
}

fn entry(
    operation_type: OperationType,
    data: Payload<GroceryItemStoreInfoData>,
) -> GroceryItemStoreInfoChangeDelta {
    GroceryItemStoreInfoChangeDelta {
        id: text(""),
        grocery_item_id: text("50"),
        store_id: text("100"),
        operation_type,
        version: 1,
        data,
    }
}

fn entry_row(version: i32) -> StoreInfoRow {
    StoreInfoRow {
        grocery_item_id: text("50"),
        store_id: text("100"),
        price: Some(199),
        is_available: true,
        user_id: None,
        version,
        is_deleted: false,
        sync_state: SyncState::Synced,
    }
}

fn parent(owner: &str) -> ParentItem {
    ParentItem { id: text("50"), user_id: some(owner), list_id: some("glist-3"), is_deleted: false }
}

fn entries(
    changes: Vec<GroceryItemStoreInfoChangeDelta>,
    parents: Vec<ParentItem>,
    rows: Vec<StoreInfoRow>,
    lists: Vec<String>,
) -> Result<Tally<StoreInfoWrite, GroceryItemStoreInfoData>, AppError> {
    process_grocery_item_store_info_changes("user-1", &changes, &parents, &rows, &lists, BOUNDS)
}

#[test]
fn an_entry_is_reported_by_its_item_and_store() {
    let tally = entries(
        vec![entry(OperationType::Insert, Payload::Item(entry_data("50", "100", 1)))],
        vec![parent("user-1")],
        vec![],
        vec![],
    )
    .unwrap_or_else(|e| panic!("{:?}", e));
    assert_eq!(tally.success_ids, vec!["50-100"]);
    assert_eq!(versions(&tally), vec![("50-100", 1)]);
}

#[test]
fn an_entry_follows_the_item_it_is_on() {
    let changed =
        || vec![entry(OperationType::Update, Payload::Item(entry_data("50", "100", 1)))];
    let rows = || vec![entry_row(6)];
    let tally = entries(changed(), vec![parent("user-2")], rows(), vec![text("glist-3")])
        .unwrap_or_else(|e| panic!("{:?}", e));
    assert_eq!(versions(&tally), vec![("50-100", 7)]);
    refused(entries(changed(), vec![parent("user-2")], rows(), vec![]), 403);
    assert!(refused(entries(changed(), vec![], rows(), vec![]), 403).contains("not found"));
    assert_eq!(parent_lists(&vec![parent("user-2")]), vec!["glist-3"]);
}

#[test]
fn an_entry_goes_onto_an_item_one_may_touch() {
    let added =
        || vec![entry(OperationType::Insert, Payload::Item(entry_data("50", "100", 1)))];
    refused(entries(added(), vec![parent("user-2")], vec![], vec![]), 403);
    assert!(refused(entries(added(), vec![], vec![], vec![]), 403).contains("not found"));
    let shared = entries(added(), vec![parent("user-2")], vec![], vec![text("glist-3")])
        .unwrap_or_else(|e| panic!("{:?}", e));
    assert_eq!(versions(&shared), vec![("50-100", 1)]);

    // The item is the document's, whatever the change says.
    let elsewhere =
        || vec![entry(OperationType::Insert, Payload::Item(entry_data("60", "100", 1)))];
    assert_eq!(items_to_read(&elsewhere()), vec!["50", "60"]);
    refused(entries(elsewhere(), vec![parent("user-1")], vec![], vec![]), 403);
}

#[test]
fn an_entrys_copy_carries_the_list_of_its_item() {
    let tally = entries(
        vec![entry(OperationType::Update, Payload::Missing)],
        vec![parent("user-1")],
        vec![entry_row(6)],
        vec![],
    )
    .unwrap_or_else(|e| panic!("{:?}", e));
    assert_eq!(tally.remote_changes[0].data.list_id, some("glist-3"));
    assert_eq!(tally.remote_changes[0].version, 6);
}

#[test]
fn an_entry_of_a_deleted_item_can_be_deleted() {
    let mut orphaned = parent("user-2");
    orphaned.is_deleted = true;
    let removed = || vec![entry(OperationType::Delete, Payload::Missing)];
    let tally =
        entries(removed(), vec![orphaned], vec![entry_row(6)], vec![]).unwrap_or_else(|e| panic!("{:?}", e));
    assert!(matches!(&tally.runs[0][0], StoreInfoWrite::Delete { .. }));
    refused(entries(removed(), vec![parent("user-2")], vec![entry_row(6)], vec![]), 403);
}

// Downloads

fn at(secs: i64) -> Instant {
    Instant { secs, nanos: 0 }
}

fn changed<T>(row: T, secs: i64, client: Option<&str>) -> Changed<T> {
    Changed { row, updated_at: at(secs), updated_by_client: client.map(text) }
}

#[test]
fn a_client_is_sent_what_others_changed_since() {
    let rows = vec![
        changed(store("old", 1), 10, Some("client-1")),
        changed(store("mine", 1), 30, Some("client-2")),
        changed(store("new", 2), 30, Some("client-1")),
        changed(store("anonymous", 1), 30, None),
    ];
    let sent = row_changes(rows, Some(at(20)), "client-2");
    let ids: Vec<&str> = sent.iter().map(|c| c.id.as_str()).collect();
    assert_eq!(ids, vec!["new", "anonymous"]);
    assert_eq!(sent[0].version, 2);
}

#[test]
fn a_tombstone_is_sent_as_a_delete() {
    let mut gone = list("glist-1", None, 3);
    gone.is_deleted = true;
    let rows = GroceryRows {
        lists: vec![changed(gone, 30, None)],
        members: vec![changed(member("m", "user-1", "MEMBER", 1), 30, None)],
        stores: vec![],
        categories: vec![changed(category("20", None, None, 1), 30, Some("client-2"))],
        items: vec![changed(item("50", "Apples", None, 1), 30, None)],
        store_infos: vec![changed(entry_data("50", "100", 2), 30, None)],
    };
    let sent = fetch_remote_grocery_mutations(Some(at(20)), "client-2", rows);
    assert_eq!(sent.lists[0].operation_type, OperationType::Delete);
    assert_eq!(sent.members.len(), 1);
    assert!(sent.categories.is_empty());
    assert_eq!(sent.items[0].id, "50");
    assert_eq!(sent.store_infos[0].id, "50-100");
}

/// A reinstalled client gets back even what it wrote itself.
#[test]
fn a_first_sync_is_owed_everything() {
    let rows = || GroceryRows {
        lists: vec![changed(list("glist-1", None, 3), 30, Some("client-2"))],
        members: vec![],
        stores: vec![changed(store("new", 2), 30, None)],
        categories: vec![],
        items: vec![],
        store_infos: vec![],
    };
    for cursor in [None, Some(at(0))] {
        let sent = fetch_remote_grocery_mutations(cursor, "client-2", rows());
        assert_eq!(sent.lists.len(), 1);
        assert_eq!(sent.stores.len(), 1);
    }
}

#[test]
fn a_page_of_rows_ends_on_a_whole_instant() {
    let row = |name: &str, secs| changed(store(name, 1), secs, None);
    match cut_changed(vec![row("a", 1), row("b", 2), row("c", 2)], Some(2), at(99)) {
        ChangedPage::Serve { rows, next_cursor } => {
            assert_eq!(rows.len(), 1);
            assert_eq!(next_cursor, Some(at(1)));
        }
        other => panic!("expected a page, got {:?}", other),
    }
    match cut_changed(vec![row("a", 2), row("b", 2)], Some(1), at(99)) {
        ChangedPage::Reread { at: whole } => assert_eq!(whole, at(2)),
        other => panic!("expected a second read, got {:?}", other),
    }
    match cut_changed(vec![row("a", 2), row("b", 2)], None, at(99)) {
        ChangedPage::Serve { rows, next_cursor } => {
            assert_eq!(rows.len(), 2);
            assert_eq!(next_cursor, None);
        }
        other => panic!("expected a page, got {:?}", other),
    }
}

// Whose caches move

#[test]
fn everybody_on_a_shared_list_is_reached() {
    let touched = vec![
        TouchedList { id: text("shared"), owner_id: some("owner") },
        TouchedList { id: text("private"), owner_id: some("other") },
    ];
    let on = |list: &str, user: &str| Membership { list_id: text(list), user_id: text(user) };
    let members = vec![on("shared", "user-1"), on("shared", "user-2"), on("private", "user-3")];
    let mut reached = find_affected_grocery_users("user-1", &touched, &members);
    reached.sort();
    assert_eq!(reached, vec!["owner", "user-1", "user-2"]);
    assert!(find_affected_grocery_users("stranger", &touched, &members).is_empty());
}

#[test]
fn a_request_touches_the_rows_it_names() {
    let mut request = SyncRequest::blank(text("client-1"));
    request.grocery_list_changes = vec![delete("glist-1")];
    request.store_changes = vec![delete("10"), delete("11")];
    request.grocery_item_store_info_changes = vec![entry(OperationType::Delete, Payload::Missing)];
    let rows = touched_rows(&request);
    assert_eq!(rows.lists, vec!["glist-1"]);
    assert_eq!(rows.stores, vec!["10", "11"]);
    assert_eq!(rows.entry_stores, vec!["100"]);
    assert!(rows.items.is_empty());
}
