//! The vocabulary of a sync request.

use crate::error::AppError;
use crate::text::same_text;
use vstd::prelude::*;

verus! {

/// Which of the account's collections a request is about.
#[derive(Debug, Clone, Copy, PartialEq, Eq, Structural)]
pub enum SyncScope {
    All,
    Todo,
    Grocery,
    ScribbleBox,
    ScribbleKeep,
    ScribbleKeepCloud,
}

impl Default for SyncScope {
    /// A request that names no scope is about everything.
    fn default() -> (scope: Self)
        ensures
            scope == SyncScope::All,
    {
        SyncScope::All
    }
}

/// The name of a scope in messages and cache keys.
pub open spec fn scope_name(scope: SyncScope) -> Seq<char> {
    match scope {
        SyncScope::All => "All"@,
        SyncScope::Todo => "Todo"@,
        SyncScope::Grocery => "Grocery"@,
        SyncScope::ScribbleBox => "ScribbleBox"@,
        SyncScope::ScribbleKeep => "ScribbleKeep"@,
        SyncScope::ScribbleKeepCloud => "ScribbleKeepCloud"@,
    }
}

impl SyncScope {
    /// The name of this scope in messages and cache keys.
    pub fn name(self) -> (name: &'static str)
        ensures
            name@ == scope_name(self),
    {
        match self {
            SyncScope::All => "All",
            SyncScope::Todo => "Todo",
            SyncScope::Grocery => "Grocery",
            SyncScope::ScribbleBox => "ScribbleBox",
            SyncScope::ScribbleKeep => "ScribbleKeep",
            SyncScope::ScribbleKeepCloud => "ScribbleKeepCloud",
        }
    }
}

/// The two products that share this service.
#[derive(Debug, Clone, Copy, PartialEq, Eq, Structural)]
pub enum Product {
    TeddyFyi,
    ScribbleRoute,
}

/// What an access token proves about its bearer.
#[derive(Debug)]
pub struct Claims {
    /// The authenticated account.
    pub sub: String,
    /// The device the token was issued to.
    pub client_uuid: String,
    /// When the token lapses, in seconds since the epoch.
    pub exp: u64,
    /// The product the token was issued for, where it says so.
    pub product: Option<Product>,
}

/// What a change does to its row.
#[derive(Debug, Clone, Copy, PartialEq, Eq, Structural)]
pub enum OperationType {
    Insert,
    Update,
    Delete,
}

/// Where a row stands between a client and the server.
#[derive(Debug)]
pub enum SyncState {
    Synced,
    PendingDelete,
    /// Any other state, by name.
    Named(String),
}

/// The text of a sync state on the wire.
pub open spec fn state_text(state: SyncState) -> Seq<char> {
    match state {
        SyncState::Synced => "SYNCED"@,
        SyncState::PendingDelete => "PENDING_DELETE"@,
        SyncState::Named(name) => name@,
    }
}

impl SyncState {
    /// The state a text on the wire names.
    pub fn from_text(s: &str) -> (state: SyncState)
        ensures
            state_text(state) == s@,
            state is Synced <==> s@ == "SYNCED"@,
            s@ != "SYNCED"@ ==> (state is PendingDelete <==> s@ == "PENDING_DELETE"@),
    {
        if same_text(s, "SYNCED") {
            SyncState::Synced
        } else if same_text(s, "PENDING_DELETE") {
            SyncState::PendingDelete
        } else {
            SyncState::Named(s.to_owned())
        }
    }

    /// The text of this state on the wire.
    pub fn text(&self) -> (s: String)
        ensures
            s@ == state_text(*self),
    {
        match self {
            SyncState::Synced => "SYNCED".to_owned(),
            SyncState::PendingDelete => "PENDING_DELETE".to_owned(),
            SyncState::Named(name) => name.clone(),
        }
    }

    /// A copy of this state.
    pub fn copy(&self) -> (state: SyncState)
        ensures
            state == *self,
    {
        match self {
            SyncState::Synced => SyncState::Synced,
            SyncState::PendingDelete => SyncState::PendingDelete,
            SyncState::Named(name) => SyncState::Named(name.clone()),
        }
    }
}

impl Clone for SyncState {
    fn clone(&self) -> (state: Self)
        ensures
            state == *self,
    {
        self.copy()
    }
}

/// The state of a stored row: rows that name none are synced.
pub open spec fn stored_state(state: Option<SyncState>) -> SyncState {
    match state {
        Some(state) => state,
        None => SyncState::Synced,
    }
}

/// The state of a stored row.
pub fn stored_or_synced(state: &Option<SyncState>) -> (s: SyncState)
    ensures
        s == stored_state(*state),
{
    match state {
        Some(state) => state.copy(),
        None => SyncState::Synced,
    }
}

/// The document a change carries, as far as it could be read.
#[derive(Debug)]
pub enum Payload<T> {
    /// The change carries no document.
    Missing,
    /// The document is `null`; the text is what reading an item out of it objects to.
    Null(String),
    /// The document is an item.
    Item(T),
    /// The document is not an item, for the reason the text gives.
    Unreadable(String),
}

/// One uploaded change to one row.
#[derive(Debug)]
pub struct ChangeDelta<T> {
    pub id: String,
    pub operation_type: OperationType,
    pub version: i32,
    pub data: Payload<T>,
}

impl<T> ChangeDelta<T> {
    /// Whether the client asks for the server's copy of the row: an update without a
    /// document, or with a `null` one.
    pub open spec fn asks_for_copy(self) -> bool {
        self.operation_type == OperationType::Update && (self.data is Missing || self.data is Null)
    }

    /// Whether the client asks for the server's copy of the row.
    pub fn needs_copy(&self) -> (b: bool)
        ensures
            b == self.asks_for_copy(),
    {
        match self.operation_type {
            OperationType::Update => match self.data {
                Payload::Missing => true,
                Payload::Null(_) => true,
                _ => false,
            },
            _ => false,
        }
    }
}

/// One change the server sends: the row as it stands there.
#[derive(Debug)]
pub struct RemoteDelta<T> {
    pub id: String,
    pub operation_type: OperationType,
    pub version: i32,
    pub data: T,
}

/// [`RemoteDelta`] with its id as mathematical text.
#[verifier::ext_equal]
pub struct RemoteView<T> {
    pub id: Seq<char>,
    pub operation_type: OperationType,
    pub version: i32,
    pub data: T,
}

impl<T> View for RemoteDelta<T> {
    type V = RemoteView<T>;

    open spec fn view(&self) -> RemoteView<T> {
        RemoteView {
            id: self.id@,
            operation_type: self.operation_type,
            version: self.version,
            data: self.data,
        }
    }
}

/// The operation a download reports for a row: a deletion where the row is a tombstone.
pub open spec fn download_operation(is_deleted: bool) -> OperationType {
    if is_deleted {
        OperationType::Delete
    } else {
        OperationType::Update
    }
}

/// The operation a download reports for a row.
pub fn operation_of(is_deleted: bool) -> (op: OperationType)
    ensures
        op == download_operation(is_deleted),
{
    if is_deleted {
        OperationType::Delete
    } else {
        OperationType::Update
    }
}

/// What the response says of one uploaded change.
#[derive(Debug)]
pub struct SuccessResult {
    pub id: String,
    pub version: i32,
    pub sync_state: SyncState,
}

/// [`SuccessResult`] with its id as mathematical text.
#[verifier::ext_equal]
pub struct StatusView {
    pub id: Seq<char>,
    pub version: i32,
    pub sync_state: SyncState,
}

impl View for SuccessResult {
    type V = StatusView;

    open spec fn view(&self) -> StatusView {
        StatusView { id: self.id@, version: self.version, sync_state: self.sync_state }
    }
}

/// The views of a list of statuses.
pub open spec fn status_views(list: Seq<SuccessResult>) -> Seq<StatusView> {
    list.map_values(|r: SuccessResult| r@)
}

/// The views of a list of remote changes.
pub open spec fn remote_views<T>(list: Seq<RemoteDelta<T>>) -> Seq<RemoteView<T>> {
    list.map_values(|r: RemoteDelta<T>| r@)
}

/// A status that reports a change as synced.
pub open spec fn synced(id: Seq<char>, version: i32) -> StatusView {
    StatusView { id, version, sync_state: SyncState::Synced }
}

/// A forbidden request, with the sentence made of `parts`.
pub fn forbidden(head: &str, id: &str) -> (e: AppError)
    ensures
        e@ == crate::error::ErrorView::Forbidden(head@ + id@),
{
    let mut s = head.to_owned();
    s.append(id);
    AppError::Forbidden(s)
}

/// A row that is deleted is sent as a deletion, and any other as an update.
pub proof fn only_what_is_deleted_is_sent_as_a_deletion(is_deleted: bool, op: OperationType)
    requires
        call_ensures(operation_of, (is_deleted,), op),
    ensures
        op is Delete <==> is_deleted,
        op is Update <==> !is_deleted,
{
}

/// A stored row stands as it says, and is synced where it says nothing.
pub proof fn a_row_stands_as_it_says(state: &Option<SyncState>, s: SyncState)
    requires
        call_ensures(stored_or_synced, (state,), s),
    ensures
        *state matches Some(own) ==> s == own,
        state is None ==> s is Synced,
{
}

/// A state is written as it was read, and only the two states that mean something are told
/// apart by name.
pub proof fn a_state_is_written_as_it_was_read(read: &str, state: SyncState, written: String)
    requires
        call_ensures(SyncState::from_text, (read,), state),
        call_ensures(SyncState::text, (&state,), written),
    ensures
        written@ == read@,
        state is Synced <==> read@ == "SYNCED"@,
        state is PendingDelete ==> read@ == "PENDING_DELETE"@,
        read@ == "PENDING_DELETE"@ ==> state is PendingDelete,
{
    reveal_strlit("SYNCED");
    reveal_strlit("PENDING_DELETE");
    assert("SYNCED"@.len() != "PENDING_DELETE"@.len());
}

/// The server's copy of a row is asked for by an update without a document, and by nothing else.
pub proof fn an_update_without_a_document_asks_for_a_copy<T>(change: &ChangeDelta<T>, b: bool)
    requires
        call_ensures(ChangeDelta::<T>::needs_copy, (change,), b),
    ensures
        b <==> change.operation_type is Update && (change.data is Missing || change.data is Null),
{
}

} // verus!
