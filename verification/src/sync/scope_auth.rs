//! Binding the requested scope to something the caller proved: a token that names a product
//! may only ask for that product's scopes.

use crate::error::{outcome, AppError, ErrorView};
use crate::sync::types::{scope_name, Claims, Product, SyncScope};
use vstd::prelude::*;

verus! {

/// The product that owns a scope's tables.
pub open spec fn owner_of(scope: SyncScope) -> Product {
    match scope {
        SyncScope::All | SyncScope::Todo | SyncScope::Grocery => Product::TeddyFyi,
        SyncScope::ScribbleBox | SyncScope::ScribbleKeep | SyncScope::ScribbleKeepCloud => {
            Product::ScribbleRoute
        },
    }
}

impl SyncScope {
    /// The product that owns this scope's tables. `All` means the teddy.fyi scopes wherever
    /// it is read.
    pub fn product(self) -> (p: Product)
        ensures
            p == owner_of(self),
    {
        match self {
            SyncScope::All | SyncScope::Todo | SyncScope::Grocery => Product::TeddyFyi,
            SyncScope::ScribbleBox | SyncScope::ScribbleKeep | SyncScope::ScribbleKeepCloud => {
                Product::ScribbleRoute
            },
        }
    }
}

/// Whether a token permits a scope: it names the scope's product, or none.
pub open spec fn permits(product: Option<Product>, scope: SyncScope) -> bool {
    product is None || product == Some(owner_of(scope))
}

/// What asking for a scope comes to.
pub open spec fn scope_decision(product: Option<Product>, scope: SyncScope) -> Result<
    (),
    ErrorView,
> {
    if permits(product, scope) {
        Ok(())
    } else {
        Err(
            ErrorView::Forbidden(
                "Scope "@ + scope_name(scope) + " does not belong to this token's product"@,
            ),
        )
    }
}

/// Fails the request unless the caller's token permits `scope`.
pub fn authorize_scope(claims: &Claims, scope: SyncScope) -> (r: Result<(), AppError>)
    ensures
        outcome(r) == scope_decision(claims.product, scope),
{
    let product = match claims.product {
        None => {
            return Ok(());
        },
        Some(product) => product,
    };
    if product == scope.product() {
        return Ok(());
    }
    let mut s = "Scope ".to_owned();
    s.append(scope.name());
    s.append(" does not belong to this token's product");
    Err(AppError::Forbidden(s))
}

/// The two products never reach each other's scopes: no scope is permitted to the tokens of
/// both.
pub proof fn no_scope_serves_both_products(scope: SyncScope)
    ensures
        !(permits(Some(Product::TeddyFyi), scope) && permits(Some(Product::ScribbleRoute), scope)),
        permits(Some(Product::TeddyFyi), scope) || permits(Some(Product::ScribbleRoute), scope),
{
}

/// A token that names a product reaches that product's scopes and no other, one that names none
/// reaches all of them, and what is not reached is forbidden.
pub proof fn a_token_reaches_its_own_product(
    claims: &Claims,
    scope: SyncScope,
    product: Product,
    r: Result<(), AppError>,
)
    requires
        call_ensures(SyncScope::product, (scope,), product),
        call_ensures(authorize_scope, (claims, scope), r),
    ensures
        product is TeddyFyi <==> scope == SyncScope::All || scope == SyncScope::Todo || scope
            == SyncScope::Grocery,
        r is Ok <==> (claims.product matches Some(own) ==> own == product),
        r matches Err(e) ==> e@ is Forbidden,
{
}

} // verus!
