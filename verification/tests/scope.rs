use teddy_sync::error::AppError;
use teddy_sync::sync::models;
use teddy_sync::sync::rejections::{item_payload_rejected, payload_refusal};
use teddy_sync::sync::request::SyncRequest;
use teddy_sync::sync::scope_auth::authorize_scope;
use teddy_sync::sync::types::{Claims, Product, SyncScope};

fn claims_for(product: Option<Product>) -> Claims {
    Claims {
        sub: "user-1".to_string(),
        client_uuid: "client-1".to_string(),
        exp: 0,
        product,
    }
}

const TEDDY_SCOPES: [SyncScope; 3] = [SyncScope::All, SyncScope::Todo, SyncScope::Grocery];
const SCRIBBLE_SCOPES: [SyncScope; 3] =
    [SyncScope::ScribbleBox, SyncScope::ScribbleKeep, SyncScope::ScribbleKeepCloud];

#[test]
fn a_token_reaches_its_own_products_scopes() {
    for scope in TEDDY_SCOPES {
        assert!(authorize_scope(&claims_for(Some(Product::TeddyFyi)), scope).is_ok());
    }
    for scope in SCRIBBLE_SCOPES {
        assert!(authorize_scope(&claims_for(Some(Product::ScribbleRoute)), scope).is_ok());
    }
}

/// The cross-product boundary itself, in both directions.
#[test]
fn a_token_cannot_reach_the_other_products_scopes() {
    for scope in SCRIBBLE_SCOPES {
        assert!(authorize_scope(&claims_for(Some(Product::TeddyFyi)), scope).is_err());
    }
    for scope in TEDDY_SCOPES {
        assert!(authorize_scope(&claims_for(Some(Product::ScribbleRoute)), scope).is_err());
    }
}

/// `All` is teddy.fyi's, so a ScribbleRoute token cannot get there by omitting the field
/// either.
#[test]
fn omitting_the_scope_does_not_widen_a_scribbleroute_token() {
    let scope = SyncScope::default();
    assert_eq!(scope, SyncScope::All);
    assert!(authorize_scope(&claims_for(Some(Product::ScribbleRoute)), scope).is_err());
}

#[test]
fn a_token_with_no_product_claim_still_reaches_every_scope() {
    for scope in TEDDY_SCOPES.into_iter().chain(SCRIBBLE_SCOPES) {
        assert!(
            authorize_scope(&claims_for(None), scope).is_ok(),
            "{scope:?} was refused for a token with no product claim"
        );
    }
}

#[test]
fn the_refusal_is_a_403_that_names_the_scope() {
    let err = authorize_scope(&claims_for(Some(Product::TeddyFyi)), SyncScope::ScribbleKeep)
        .unwrap_err();
    assert_eq!(err.status(), 403);
    match err {
        AppError::Forbidden(message) => assert!(message.contains("ScribbleKeep")),
        other => panic!("expected Forbidden, got {other:?}"),
    }
}

#[test]
fn every_scope_belongs_to_one_product() {
    for scope in TEDDY_SCOPES {
        assert_eq!(scope.product(), Product::TeddyFyi);
    }
    for scope in SCRIBBLE_SCOPES {
        assert_eq!(scope.product(), Product::ScribbleRoute);
    }
}

#[test]
fn test_sync_scope_includes() {
    assert!(models::SyncScope::All.includes(models::SyncScope::Todo));
    assert!(models::SyncScope::All.includes(models::SyncScope::Grocery));
    assert!(models::SyncScope::Todo.includes(models::SyncScope::Todo));
    assert!(!models::SyncScope::Todo.includes(models::SyncScope::Grocery));
}

fn serde_error() -> serde_json::Error {
    <serde_json::Error as serde::de::Error>::missing_field("title")
}

/// The three things the client is owed, in one string: what kind of row, which one, and
/// what the reader objected to.
#[test]
fn the_refusal_names_the_entity_the_id_and_the_reason() {
    let err = item_payload_rejected("todo item", "todo-42", &serde_error());

    match err {
        AppError::BadRequest(message) => {
            assert!(message.contains("todo item"), "{message}");
            assert!(message.contains("todo-42"), "{message}");
            assert!(message.contains("missing field"), "{message}");
        }
        other => panic!("expected BadRequest, got {other:?}"),
    }
}

#[test]
fn the_refusal_is_a_bad_request_not_a_serialization_error() {
    assert!(matches!(
        item_payload_rejected("config", "config-1", &serde_error()),
        AppError::BadRequest(_)
    ));
}

#[test]
fn a_refusal_quotes_the_reader() {
    match item_payload_rejected("todo item", "todo-42", &serde_error()) {
        AppError::BadRequest(message) => {
            assert_eq!(message, "Invalid todo item payload for todo-42: missing field `title`")
        }
        other => panic!("expected BadRequest, got {:?}", other),
    }
}

#[test]
fn a_refusal_reads_as_one_sentence() {
    match payload_refusal("store", "s1", "no name") {
        AppError::BadRequest(message) => {
            assert_eq!(message, "Invalid store payload for s1: no name")
        }
        other => panic!("expected BadRequest, got {other:?}"),
    }
}

#[test]
fn a_blank_request_carries_nothing() {
    let req = SyncRequest::blank("test-client-id".to_string());
    assert_eq!(req.client_id, "test-client-id");
    assert!(req.last_synced_at.is_none());
    assert!(req.todo_list_changes.is_empty());
    assert!(req.todo_changes.is_empty());
    assert!(req.grocery_list_changes.is_empty());
    assert!(req.grocery_list_member_changes.is_empty());
    assert!(req.store_changes.is_empty());
    assert!(req.category_changes.is_empty());
    assert!(req.grocery_changes.is_empty());
    assert!(req.grocery_item_store_info_changes.is_empty());
}

#[test]
fn each_error_answers_with_its_own_status() {
    let text = || "x".to_string();
    assert_eq!(AppError::BadRequest(text()).status(), 400);
    assert_eq!(AppError::Serialization(text()).status(), 400);
    assert_eq!(AppError::Forbidden(text()).status(), 403);
    assert_eq!(AppError::NotFound(text()).status(), 404);
    assert_eq!(AppError::TooManyRequests(text()).status(), 429);
    assert_eq!(AppError::Internal(text()).status(), 500);
}
