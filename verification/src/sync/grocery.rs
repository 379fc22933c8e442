//! The grocery collections: lists and their members, stores, categories, items and what a
//! store charges for an item.

pub mod access;
pub mod affected_users;
pub mod categories;
pub mod grocery_item_store_info;
pub mod grocery_items;
pub mod grocery_list_members;
pub mod grocery_lists;
pub mod remote_mutations;
pub mod stores;
