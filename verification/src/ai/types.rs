//! What the helpers are asked and answer.

use vstd::prelude::*;

verus! {

#[derive(Debug)]
pub struct CategorizeItemRequest {
    pub item_title: String,
}

#[derive(Debug)]
pub struct CategorizeItemResponse {
    pub selected_category: String,
}

#[derive(Debug)]
pub struct AssignTodoIconRequest {
    pub todo_title: String,
}

#[derive(Debug)]
pub struct AssignTodoIconResponse {
    pub emoji_or_asset_token: String,
}

} // verus!
