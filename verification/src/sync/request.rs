//! The body of a sync request.

use crate::ids::Uuid;
use crate::instant::Instant;
use crate::json::Json;
use crate::sync::grocery::categories::CategoryChangeDelta;
use crate::sync::grocery::grocery_item_store_info::GroceryItemStoreInfoChangeDelta;
use crate::sync::grocery::grocery_items::GroceryChangeDelta;
use crate::sync::grocery::grocery_list_members::GroceryListMemberChangeDelta;
use crate::sync::grocery::grocery_lists::GroceryListChangeDelta;
use crate::sync::grocery::stores::StoreChangeDelta;
use crate::sync::types::{ChangeDelta, OperationType, Payload, SyncScope, SyncState};
use vstd::prelude::*;

verus! {

/// A list of tasks.
#[derive(Debug)]
pub struct TodoListData {
    pub id: String,
    pub name: String,
    pub color_hex: String,
    pub user_id: Option<String>,
    pub created_at: i64,
    pub sync_state: SyncState,
    pub version: i32,
    pub is_deleted: bool,
}

/// A task.
#[derive(Debug)]
pub struct TodoItemData {
    pub id: String,
    pub title: String,
    pub is_completed: bool,
    pub created_at: i64,
    pub position: i32,
    pub scheduled_date: Option<i64>,
    pub recurrence_rule: Option<String>,
    pub scheduled_at: i64,
    pub user_id: Option<String>,
    pub parent_id: Option<String>,
    pub is_daily: bool,
    pub due_date: Option<i64>,
    pub description: Option<String>,
    pub list_id: Option<String>,
    pub priority: i32,
    pub icon: Option<String>,
    pub sync_state: SyncState,
    pub version: i32,
    pub is_deleted: bool,
}

pub type TodoListChangeDelta = ChangeDelta<TodoListData>;

pub type TodoChangeDelta = ChangeDelta<TodoItemData>;

/// A config, as a client sends it.
#[derive(Debug)]
pub struct ConfigData {
    pub id: Uuid,
    pub user_id: String,
    pub client_uuid: String,
    pub device_uuid: Option<Uuid>,
    pub version: i32,
    pub is_deleted: bool,
    pub last_modified: i64,
    pub sync_state: SyncState,
    pub key: String,
    pub value: String,
}

/// One uploaded change to one config.
#[derive(Debug)]
pub struct ConfigChangeDelta {
    pub id: String,
    pub operation_type: OperationType,
    pub version: i32,
    pub device_uuid: Option<Uuid>,
    pub data: Payload<ConfigData>,
    /// The key and value of a document that is not a config otherwise, where it has them.
    pub stray_key: Option<String>,
    pub stray_value: Option<String>,
}

/// A config in the flat list of a request or response.
#[derive(Debug)]
pub struct ConfigSyncItem {
    pub id: Uuid,
    pub device_uuid: Option<Uuid>,
    pub key: String,
    pub value: String,
    pub sync_state: SyncState,
    pub version: i32,
    pub is_deleted: bool,
    pub last_modified: i64,
}

/// A drawing, as a client sends it.
#[derive(Debug)]
pub struct DrawingData {
    pub id: Uuid,
    pub user_id: String,
    pub client_uuid: String,
    pub device_uuid: Option<Uuid>,
    pub version: i32,
    pub is_deleted: bool,
    pub last_modified: i64,
    pub sync_state: SyncState,
    pub created_at: i64,
    pub data: Json,
}

/// One uploaded change to one drawing.
#[derive(Debug)]
pub struct DrawingChangeDelta {
    pub id: String,
    pub operation_type: OperationType,
    pub version: i32,
    pub device_uuid: Option<Uuid>,
    pub data: Payload<DrawingData>,
    /// The picture in a document that is not a drawing otherwise, where it has one.
    pub stray_blob: Option<Json>,
}

/// A drawing in the flat list of a request or response.
#[derive(Debug)]
pub struct DrawingSyncItem {
    pub id: Uuid,
    pub user_id: Option<String>,
    pub device_uuid: Option<Uuid>,
    pub created_at: i64,
    pub data: Json,
    pub sync_state: SyncState,
    pub version: i32,
    pub is_deleted: bool,
    pub last_modified: i64,
}

/// The body of a sync request.
#[derive(Debug)]
pub struct SyncRequest {
    pub last_synced_at: Option<Instant>,
    pub client_id: String,
    pub scope: Option<SyncScope>,
    /// Whether the client comes back for the rest of a download that was cut short.
    pub supports_paging: bool,
    pub device_uuid: Option<Uuid>,
    pub device_name: Option<String>,
    pub todo_list_changes: Vec<TodoListChangeDelta>,
    pub todo_changes: Vec<TodoChangeDelta>,
    pub grocery_list_changes: Vec<GroceryListChangeDelta>,
    pub grocery_list_member_changes: Vec<GroceryListMemberChangeDelta>,
    pub store_changes: Vec<StoreChangeDelta>,
    pub category_changes: Vec<CategoryChangeDelta>,
    pub grocery_changes: Vec<GroceryChangeDelta>,
    pub grocery_item_store_info_changes: Vec<GroceryItemStoreInfoChangeDelta>,
    pub config_changes: Vec<ConfigChangeDelta>,
    pub drawing_changes: Vec<DrawingChangeDelta>,
    pub configs: Vec<ConfigSyncItem>,
    pub drawings: Vec<DrawingSyncItem>,
}

impl SyncRequest {
    /// Whether every change vector is empty.
    pub open spec fn carries_nothing(self) -> bool {
        &&& self.todo_list_changes@.len() == 0
        &&& self.todo_changes@.len() == 0
        &&& self.grocery_list_changes@.len() == 0
        &&& self.grocery_list_member_changes@.len() == 0
        &&& self.store_changes@.len() == 0
        &&& self.category_changes@.len() == 0
        &&& self.grocery_changes@.len() == 0
        &&& self.grocery_item_store_info_changes@.len() == 0
        &&& self.config_changes@.len() == 0
        &&& self.drawing_changes@.len() == 0
        &&& self.configs@.len() == 0
        &&& self.drawings@.len() == 0
    }

    /// A request from `client_id` that names nothing else.
    pub fn blank(client_id: String) -> (r: SyncRequest)
        ensures
            r.client_id == client_id,
            r.last_synced_at is None,
            r.scope is None,
            !r.supports_paging,
            r.device_uuid is None,
            r.device_name is None,
            r.carries_nothing(),
    {
        SyncRequest {
            last_synced_at: None,
            client_id,
            scope: None,
            supports_paging: false,
            device_uuid: None,
            device_name: None,
            todo_list_changes: Vec::new(),
            todo_changes: Vec::new(),
            grocery_list_changes: Vec::new(),
            grocery_list_member_changes: Vec::new(),
            store_changes: Vec::new(),
            category_changes: Vec::new(),
            grocery_changes: Vec::new(),
            grocery_item_store_info_changes: Vec::new(),
            config_changes: Vec::new(),
            drawing_changes: Vec::new(),
            configs: Vec::new(),
            drawings: Vec::new(),
        }
    }
}

/// A blank request says who sent it and nothing else.
pub proof fn a_blank_request_says_who_sent_it(client_id: String, r: SyncRequest)
    requires
        call_ensures(SyncRequest::blank, (client_id,), r),
    ensures
        r.client_id == client_id,
        r.last_synced_at is None && r.scope is None && r.device_uuid is None && r.device_name
            is None && !r.supports_paging,
        r.todo_list_changes@.len() == 0 && r.todo_changes@.len() == 0
            && r.grocery_list_changes@.len() == 0 && r.grocery_list_member_changes@.len() == 0
            && r.store_changes@.len() == 0 && r.category_changes@.len() == 0
            && r.grocery_changes@.len() == 0 && r.grocery_item_store_info_changes@.len() == 0
            && r.config_changes@.len() == 0 && r.drawing_changes@.len() == 0 && r.configs@.len()
            == 0 && r.drawings@.len() == 0,
{
}

} // verus!
