//! Per-item bounds on what a sync body may carry, checked before anything is written.
//!
//! An over-large item fails the whole request with a sentence that names the field, the item
//! and the unit, and nothing is written.

use crate::error::{outcome, AppError, ErrorView};
use crate::ids::hyphenated;
use crate::json::{capped, depth, encode, encoding, json_depth, Json};
use crate::sync::request::{
    ConfigChangeDelta, ConfigSyncItem, DrawingChangeDelta, DrawingSyncItem, SyncRequest,
};
use crate::sync::types::Payload;
use crate::text::{
    byte_len, byte_length, decimal, decimal_text, raw_text, read_setting, setting,
};
use vstd::prelude::*;

verus! {

/// Largest serialized size of one drawing's picture, in bytes.
pub const DEFAULT_MAX_DRAWING_DATA_BYTES: usize = 524288;

/// Largest nesting depth inside a drawing's picture.
pub const DEFAULT_MAX_DRAWING_DATA_DEPTH: usize = 32;

/// Largest config key, in bytes of UTF-8.
pub const DEFAULT_MAX_CONFIG_KEY_BYTES: usize = 128;

/// Largest config value, in bytes of UTF-8.
pub const DEFAULT_MAX_CONFIG_VALUE_BYTES: usize = 8192;

/// Largest number of items one change vector in a request may carry.
pub const DEFAULT_MAX_ITEMS_PER_COLLECTION: usize = 10_000;

/// Largest number of items across every change vector in one request.
pub const DEFAULT_MAX_ITEMS_TOTAL: usize = 20_000;

/// Largest number of rows one download hands back per entity, per request.
pub const DEFAULT_SYNC_DOWNLOAD_PAGE_SIZE: usize = 200;

pub const MAX_DRAWING_DATA_BYTES_ENV: &'static str = "SYNC_MAX_DRAWING_DATA_BYTES";

pub const MAX_DRAWING_DATA_DEPTH_ENV: &'static str = "SYNC_MAX_DRAWING_DATA_DEPTH";

pub const MAX_CONFIG_KEY_BYTES_ENV: &'static str = "SYNC_MAX_CONFIG_KEY_BYTES";

pub const MAX_CONFIG_VALUE_BYTES_ENV: &'static str = "SYNC_MAX_CONFIG_VALUE_BYTES";

pub const MAX_ITEMS_PER_COLLECTION_ENV: &'static str = "SYNC_MAX_ITEMS_PER_COLLECTION";

pub const MAX_ITEMS_TOTAL_ENV: &'static str = "SYNC_MAX_ITEMS_TOTAL";

pub const SYNC_DOWNLOAD_PAGE_SIZE_ENV: &'static str = "SYNC_DOWNLOAD_PAGE_SIZE";

/// The bounds one request is checked against.
#[derive(Debug, Clone, Copy, PartialEq, Eq, Structural)]
pub struct SyncLimits {
    pub max_drawing_data_bytes: usize,
    pub max_drawing_data_depth: usize,
    pub max_config_key_bytes: usize,
    pub max_config_value_bytes: usize,
    pub max_items_per_collection: usize,
    pub max_items_total: usize,
    /// The one bound on the response rather than the request.
    pub download_page_size: usize,
}

/// The bounds where the operator set none.
pub open spec fn default_limits() -> SyncLimits {
    SyncLimits {
        max_drawing_data_bytes: DEFAULT_MAX_DRAWING_DATA_BYTES,
        max_drawing_data_depth: DEFAULT_MAX_DRAWING_DATA_DEPTH,
        max_config_key_bytes: DEFAULT_MAX_CONFIG_KEY_BYTES,
        max_config_value_bytes: DEFAULT_MAX_CONFIG_VALUE_BYTES,
        max_items_per_collection: DEFAULT_MAX_ITEMS_PER_COLLECTION,
        max_items_total: DEFAULT_MAX_ITEMS_TOTAL,
        download_page_size: DEFAULT_SYNC_DOWNLOAD_PAGE_SIZE,
    }
}

impl Default for SyncLimits {
    fn default() -> (l: Self)
        ensures
            l == default_limits(),
    {
        SyncLimits {
            max_drawing_data_bytes: DEFAULT_MAX_DRAWING_DATA_BYTES,
            max_drawing_data_depth: DEFAULT_MAX_DRAWING_DATA_DEPTH,
            max_config_key_bytes: DEFAULT_MAX_CONFIG_KEY_BYTES,
            max_config_value_bytes: DEFAULT_MAX_CONFIG_VALUE_BYTES,
            max_items_per_collection: DEFAULT_MAX_ITEMS_PER_COLLECTION,
            max_items_total: DEFAULT_MAX_ITEMS_TOTAL,
            download_page_size: DEFAULT_SYNC_DOWNLOAD_PAGE_SIZE,
        }
    }
}

/// The environment's settings of the seven bounds, as far as they are set.
#[derive(Debug, Clone, Copy)]
pub struct RawLimits<'a> {
    pub max_drawing_data_bytes: Option<&'a str>,
    pub max_drawing_data_depth: Option<&'a str>,
    pub max_config_key_bytes: Option<&'a str>,
    pub max_config_value_bytes: Option<&'a str>,
    pub max_items_per_collection: Option<&'a str>,
    pub max_items_total: Option<&'a str>,
    pub download_page_size: Option<&'a str>,
}

/// One bound: what the operator set, or the default where they set nothing, zero or
/// something that is no length.
pub fn read_limit(raw: Option<&str>, default: usize) -> (n: usize)
    ensures
        n == setting(raw_text(raw), usize::MAX as nat, default as nat),
{
    read_setting(raw, usize::MAX as u64, default as u64) as usize
}

impl SyncLimits {
    /// The bounds in force: each as the environment sets it, or its default.
    pub fn from_env(env: &RawLimits) -> (l: SyncLimits)
        ensures
            ({
                let d = default_limits();
                let max = usize::MAX as nat;
                &&& l.max_drawing_data_bytes == setting(
                    raw_text(env.max_drawing_data_bytes),
                    max,
                    d.max_drawing_data_bytes as nat,
                )
                &&& l.max_drawing_data_depth == setting(
                    raw_text(env.max_drawing_data_depth),
                    max,
                    d.max_drawing_data_depth as nat,
                )
                &&& l.max_config_key_bytes == setting(
                    raw_text(env.max_config_key_bytes),
                    max,
                    d.max_config_key_bytes as nat,
                )
                &&& l.max_config_value_bytes == setting(
                    raw_text(env.max_config_value_bytes),
                    max,
                    d.max_config_value_bytes as nat,
                )
                &&& l.max_items_per_collection == setting(
                    raw_text(env.max_items_per_collection),
                    max,
                    d.max_items_per_collection as nat,
                )
                &&& l.max_items_total == setting(
                    raw_text(env.max_items_total),
                    max,
                    d.max_items_total as nat,
                )
                &&& l.download_page_size == setting(
                    raw_text(env.download_page_size),
                    max,
                    d.download_page_size as nat,
                )
            }),
    {
        let d = SyncLimits::default();
        SyncLimits {
            max_drawing_data_bytes: read_limit(env.max_drawing_data_bytes, d.max_drawing_data_bytes),
            max_drawing_data_depth: read_limit(env.max_drawing_data_depth, d.max_drawing_data_depth),
            max_config_key_bytes: read_limit(env.max_config_key_bytes, d.max_config_key_bytes),
            max_config_value_bytes: read_limit(env.max_config_value_bytes, d.max_config_value_bytes),
            max_items_per_collection: read_limit(
                env.max_items_per_collection,
                d.max_items_per_collection,
            ),
            max_items_total: read_limit(env.max_items_total, d.max_items_total),
            download_page_size: read_limit(env.download_page_size, d.download_page_size),
        }
    }
}

/// The names of the change vectors, as a client knows them.
pub open spec fn collection_names() -> Seq<Seq<char>> {
    seq![
        "todoListChanges"@,
        "todoChanges"@,
        "groceryListChanges"@,
        "groceryListMemberChanges"@,
        "storeChanges"@,
        "categoryChanges"@,
        "groceryChanges"@,
        "groceryItemStoreInfoChanges"@,
        "configChanges"@,
        "drawingChanges"@,
        "configs"@,
        "drawings"@,
    ]
}

/// The lengths of the change vectors, in the order of their names.
pub open spec fn collection_sizes(payload: SyncRequest) -> Seq<nat> {
    seq![
        payload.todo_list_changes@.len(),
        payload.todo_changes@.len(),
        payload.grocery_list_changes@.len(),
        payload.grocery_list_member_changes@.len(),
        payload.store_changes@.len(),
        payload.category_changes@.len(),
        payload.grocery_changes@.len(),
        payload.grocery_item_store_info_changes@.len(),
        payload.config_changes@.len(),
        payload.drawing_changes@.len(),
        payload.configs@.len(),
        payload.drawings@.len(),
    ]
}

/// Every change vector in a request, paired with the name the client knows it by.
pub fn collections(payload: &SyncRequest) -> (c: Vec<(&'static str, usize)>)
    ensures
        c@.len() == 12,
        c@.map_values(|e: (&'static str, usize)| e.0@) == collection_names(),
        c@.map_values(|e: (&'static str, usize)| e.1 as nat) == collection_sizes(*payload),
{
    let c = vec![
        ("todoListChanges", payload.todo_list_changes.len()),
        ("todoChanges", payload.todo_changes.len()),
        ("groceryListChanges", payload.grocery_list_changes.len()),
        ("groceryListMemberChanges", payload.grocery_list_member_changes.len()),
        ("storeChanges", payload.store_changes.len()),
        ("categoryChanges", payload.category_changes.len()),
        ("groceryChanges", payload.grocery_changes.len()),
        ("groceryItemStoreInfoChanges", payload.grocery_item_store_info_changes.len()),
        ("configChanges", payload.config_changes.len()),
        ("drawingChanges", payload.drawing_changes.len()),
        ("configs", payload.configs.len()),
        ("drawings", payload.drawings.len()),
    ];
    assert(c@.map_values(|e: (&'static str, usize)| e.0@) =~= collection_names());
    assert(c@.map_values(|e: (&'static str, usize)| e.1 as nat) =~= collection_sizes(*payload));
    c
}

/// The sum of some lengths.
pub open spec fn total(sizes: Seq<nat>) -> nat
    decreases sizes.len(),
{
    if sizes.len() == 0 {
        0
    } else {
        total(sizes.drop_last()) + sizes.last()
    }
}

/// The refusal of an over-full collection.
pub open spec fn overfull(name: Seq<char>, size: nat, limit: usize) -> ErrorView {
    ErrorView::BadRequest(
        name + " carries "@ + decimal(size) + " items, over the "@ + decimal(limit as nat)
            + "-item limit"@,
    )
}

/// The first of the collections from `from` on that is over its limit.
pub open spec fn first_overfull(
    names: Seq<Seq<char>>,
    sizes: Seq<nat>,
    limit: usize,
    from: int,
) -> Option<ErrorView>
    decreases sizes.len() - from,
{
    if from < 0 || from >= sizes.len() {
        None
    } else if sizes[from] > limit {
        Some(overfull(names[from], sizes[from], limit))
    } else {
        first_overfull(names, sizes, limit, from + 1)
    }
}

/// What the counts of a request come to: the first over-full collection, then the total.
pub open spec fn count_check(payload: SyncRequest, limits: SyncLimits) -> Result<(), ErrorView> {
    let sizes = collection_sizes(payload);
    match first_overfull(collection_names(), sizes, limits.max_items_per_collection, 0) {
        Some(e) => Err(e),
        None => if total(sizes) > limits.max_items_total {
            Err(
                ErrorView::BadRequest(
                    "request carries "@ + decimal(total(sizes))
                        + " items across all change collections, over the "@ + decimal(
                        limits.max_items_total as nat,
                    ) + "-item limit"@,
                ),
            )
        } else {
            Ok(())
        },
    }
}

/// Bounds how much work one request may order, per vector and in total.
pub fn check_item_counts(payload: &SyncRequest, limits: &SyncLimits) -> (r: Result<(), AppError>)
    ensures
        outcome(r) == count_check(*payload, *limits),
{
    let counts = collections(payload);
    let ghost names = collection_names();
    let ghost sizes = collection_sizes(*payload);
    let mut i: usize = 0;
    let mut sum: u128 = 0;
    assert(sizes.take(0) =~= seq![]);
    while i < counts.len()
        invariant
            i <= counts.len(),
            counts@.len() == 12,
            names == collection_names(),
            sizes == collection_sizes(*payload),
            counts@.map_values(|e: (&'static str, usize)| e.0@) == names,
            counts@.map_values(|e: (&'static str, usize)| e.1 as nat) == sizes,
            sum == total(sizes.take(i as int)),
            sum <= i * usize::MAX,
            first_overfull(names, sizes, limits.max_items_per_collection, 0) == first_overfull(
                names,
                sizes,
                limits.max_items_per_collection,
                i as int,
            ),
        decreases counts.len() - i,
    {
        let (field, size) = counts[i];
        proof {
            assert(names[i as int] == counts@.map_values(
                |e: (&'static str, usize)| e.0@,
            )[i as int]);
            assert(sizes[i as int] == counts@.map_values(
                |e: (&'static str, usize)| e.1 as nat,
            )[i as int]);
            assert(sizes.take(i + 1).drop_last() =~= sizes.take(i as int));
        }
        if size > limits.max_items_per_collection {
            let mut s = field.to_owned();
            s.append(" carries ");
            s.append(decimal_text(size as u128).as_str());
            s.append(" items, over the ");
            s.append(decimal_text(limits.max_items_per_collection as u128).as_str());
            s.append("-item limit");
            return Err(AppError::BadRequest(s));
        }
        sum = sum + size as u128;
        i = i + 1;
    }
    assert(sizes.take(12) =~= sizes);
    if sum > limits.max_items_total as u128 {
        let mut s = "request carries ".to_owned();
        s.append(decimal_text(sum).as_str());
        s.append(" items across all change collections, over the ");
        s.append(decimal_text(limits.max_items_total as u128).as_str());
        s.append("-item limit");
        return Err(AppError::BadRequest(s));
    }
    Ok(())
}

/// What one picture comes to: its encoded size is checked first, then its nesting.
pub open spec fn picture_check(
    id: Seq<char>,
    field: Seq<char>,
    data: Json,
    limits: SyncLimits,
) -> Result<(), ErrorView> {
    let bytes = byte_len(encoding(data));
    let levels = capped(depth(data));
    if bytes > limits.max_drawing_data_bytes {
        Err(
            ErrorView::BadRequest(
                "drawing "@ + id + ": "@ + field + " is "@ + decimal(bytes as nat)
                    + " bytes, over the "@ + decimal(limits.max_drawing_data_bytes as nat)
                    + "-byte limit"@,
            ),
        )
    } else if levels > limits.max_drawing_data_depth {
        Err(
            ErrorView::BadRequest(
                "drawing "@ + id + ": "@ + field + " is nested "@ + decimal(levels)
                    + " levels deep, over the "@ + decimal(limits.max_drawing_data_depth as nat)
                    + "-level limit"@,
            ),
        )
    } else {
        Ok(())
    }
}

/// Bounds one picture.
pub fn check_drawing_data(
    id: &str,
    field: &str,
    data: &Json,
    limits: &SyncLimits,
) -> (r: Result<(), AppError>)
    ensures
        outcome(r) == picture_check(id@, field@, *data, *limits),
{
    let bytes: usize = byte_length(encode(data).as_str());
    if bytes > limits.max_drawing_data_bytes {
        let mut s = "drawing ".to_owned();
        s.append(id);
        s.append(": ");
        s.append(field);
        s.append(" is ");
        s.append(decimal_text(bytes as u128).as_str());
        s.append(" bytes, over the ");
        s.append(decimal_text(limits.max_drawing_data_bytes as u128).as_str());
        s.append("-byte limit");
        return Err(AppError::BadRequest(s));
    }
    let levels: usize = json_depth(data);
    if levels > limits.max_drawing_data_depth {
        let mut s = "drawing ".to_owned();
        s.append(id);
        s.append(": ");
        s.append(field);
        s.append(" is nested ");
        s.append(decimal_text(levels as u128).as_str());
        s.append(" levels deep, over the ");
        s.append(decimal_text(limits.max_drawing_data_depth as u128).as_str());
        s.append("-level limit");
        return Err(AppError::BadRequest(s));
    }
    Ok(())
}

/// Bounds one drawing of the flat list.
pub fn check_drawing_item(item: &DrawingSyncItem, limits: &SyncLimits) -> (r: Result<(), AppError>)
    ensures
        outcome(r) == picture_check(
            hyphenated(item.id.bits),
            "drawings[].data"@,
            item.data,
            *limits,
        ),
{
    check_drawing_data(item.id.text().as_str(), "drawings[].data", &item.data, limits)
}

/// The picture a change carries: its drawing's, or a stray one.
pub open spec fn blob_of(change: DrawingChangeDelta) -> Option<Json> {
    match change.data {
        Payload::Item(item) => Some(item.data),
        _ => change.stray_blob,
    }
}

/// What the picture of a change comes to. A change without one has nothing to bound.
pub open spec fn drawing_change_check(
    change: DrawingChangeDelta,
    limits: SyncLimits,
) -> Result<(), ErrorView> {
    match blob_of(change) {
        Some(blob) => picture_check(change.id@, "drawingChanges[].data.data"@, blob, limits),
        None => Ok(()),
    }
}

/// Bounds the picture one change carries.
pub fn check_drawing_change(change: &DrawingChangeDelta, limits: &SyncLimits) -> (r: Result<
    (),
    AppError,
>)
    ensures
        outcome(r) == drawing_change_check(*change, *limits),
{
    let field = "drawingChanges[].data.data";
    match &change.data {
        Payload::Item(item) => check_drawing_data(change.id.as_str(), field, &item.data, limits),
        _ => match &change.stray_blob {
            Some(blob) => check_drawing_data(change.id.as_str(), field, blob, limits),
            None => Ok(()),
        },
    }
}

/// The refusal of an over-long config field.
pub open spec fn overlong(
    id: Seq<char>,
    field: Seq<char>,
    part: Seq<char>,
    bytes: usize,
    limit: usize,
) -> ErrorView {
    ErrorView::BadRequest(
        "config "@ + id + ": "@ + field + part + " is "@ + decimal(bytes as nat)
            + " bytes, over the "@ + decimal(limit as nat) + "-byte limit"@,
    )
}

/// What a config's key and value come to: the key is checked first.
pub open spec fn config_check(
    id: Seq<char>,
    field: Seq<char>,
    key: Seq<char>,
    value: Seq<char>,
    limits: SyncLimits,
) -> Result<(), ErrorView> {
    if byte_len(key) > limits.max_config_key_bytes {
        Err(overlong(id, field, ".key"@, byte_len(key), limits.max_config_key_bytes))
    } else if byte_len(value) > limits.max_config_value_bytes {
        Err(overlong(id, field, ".value"@, byte_len(value), limits.max_config_value_bytes))
    } else {
        Ok(())
    }
}

fn refuse_overlong(id: &str, field: &str, part: &str, bytes: usize, limit: usize) -> (e: AppError)
    ensures
        e@ == overlong(id@, field@, part@, bytes, limit),
{
    let mut s = "config ".to_owned();
    s.append(id);
    s.append(": ");
    s.append(field);
    s.append(part);
    s.append(" is ");
    s.append(decimal_text(bytes as u128).as_str());
    s.append(" bytes, over the ");
    s.append(decimal_text(limit as u128).as_str());
    s.append("-byte limit");
    AppError::BadRequest(s)
}

/// Bounds one config's key and value.
pub fn check_config_fields(
    id: &str,
    field: &str,
    key: &str,
    value: &str,
    limits: &SyncLimits,
) -> (r: Result<(), AppError>)
    ensures
        outcome(r) == config_check(id@, field@, key@, value@, *limits),
{
    let key_bytes: usize = byte_length(key);
    if key_bytes > limits.max_config_key_bytes {
        return Err(refuse_overlong(id, field, ".key", key_bytes, limits.max_config_key_bytes));
    }
    let value_bytes: usize = byte_length(value);
    if value_bytes > limits.max_config_value_bytes {
        return Err(
            refuse_overlong(id, field, ".value", value_bytes, limits.max_config_value_bytes),
        );
    }
    Ok(())
}

/// Bounds one config of the flat list.
pub fn check_config_item(item: &ConfigSyncItem, limits: &SyncLimits) -> (r: Result<(), AppError>)
    ensures
        outcome(r) == config_check(
            hyphenated(item.id.bits),
            "configs[]"@,
            item.key@,
            item.value@,
            *limits,
        ),
{
    check_config_fields(
        item.id.text().as_str(),
        "configs[]",
        item.key.as_str(),
        item.value.as_str(),
        limits,
    )
}

/// The text of an optional string, or none at all.
pub open spec fn text_or_empty(s: Option<String>) -> Seq<char> {
    match s {
        Some(s) => s@,
        None => ""@,
    }
}

/// What the key and value of a change come to. Absent fields are no longer than nothing;
/// whether they may be absent is for reading the document to say.
pub open spec fn config_change_check(change: ConfigChangeDelta, limits: SyncLimits) -> Result<
    (),
    ErrorView,
> {
    let field = "configChanges[].data"@;
    match change.data {
        Payload::Missing => Ok(()),
        Payload::Item(item) => config_check(change.id@, field, item.key@, item.value@, limits),
        _ => config_check(
            change.id@,
            field,
            text_or_empty(change.stray_key),
            text_or_empty(change.stray_value),
            limits,
        ),
    }
}

fn or_empty(s: &Option<String>) -> (t: &str)
    ensures
        t@ == text_or_empty(*s),
{
    match s {
        Some(s) => s.as_str(),
        None => "",
    }
}

/// Bounds the key and value one change carries.
pub fn check_config_change(change: &ConfigChangeDelta, limits: &SyncLimits) -> (r: Result<
    (),
    AppError,
>)
    ensures
        outcome(r) == config_change_check(*change, *limits),
{
    let field = "configChanges[].data";
    match &change.data {
        Payload::Missing => Ok(()),
        Payload::Item(item) => check_config_fields(
            change.id.as_str(),
            field,
            item.key.as_str(),
            item.value.as_str(),
            limits,
        ),
        _ => check_config_fields(
            change.id.as_str(),
            field,
            or_empty(&change.stray_key),
            or_empty(&change.stray_value),
            limits,
        ),
    }
}

/// What the pictures of the flat list come to, from `from` on: the first refusal.
pub open spec fn drawings_check(
    items: Seq<DrawingSyncItem>,
    limits: SyncLimits,
    from: int,
) -> Result<(), ErrorView>
    decreases items.len() - from,
{
    if from < 0 || from >= items.len() {
        Ok(())
    } else {
        match picture_check(
            hyphenated(items[from].id.bits),
            "drawings[].data"@,
            items[from].data,
            limits,
        ) {
            Ok(_) => drawings_check(items, limits, from + 1),
            Err(e) => Err(e),
        }
    }
}

/// What the pictures of the changes come to, from `from` on: the first refusal.
pub open spec fn drawing_changes_check(
    changes: Seq<DrawingChangeDelta>,
    limits: SyncLimits,
    from: int,
) -> Result<(), ErrorView>
    decreases changes.len() - from,
{
    if from < 0 || from >= changes.len() {
        Ok(())
    } else {
        match drawing_change_check(changes[from], limits) {
            Ok(_) => drawing_changes_check(changes, limits, from + 1),
            Err(e) => Err(e),
        }
    }
}

/// What the configs of the flat list come to, from `from` on: the first refusal.
pub open spec fn configs_check(
    items: Seq<ConfigSyncItem>,
    limits: SyncLimits,
    from: int,
) -> Result<(), ErrorView>
    decreases items.len() - from,
{
    if from < 0 || from >= items.len() {
        Ok(())
    } else {
        match config_check(
            hyphenated(items[from].id.bits),
            "configs[]"@,
            items[from].key@,
            items[from].value@,
            limits,
        ) {
            Ok(_) => configs_check(items, limits, from + 1),
            Err(e) => Err(e),
        }
    }
}

/// What the config changes come to, from `from` on: the first refusal.
pub open spec fn config_changes_check(
    changes: Seq<ConfigChangeDelta>,
    limits: SyncLimits,
    from: int,
) -> Result<(), ErrorView>
    decreases changes.len() - from,
{
    if from < 0 || from >= changes.len() {
        Ok(())
    } else {
        match config_change_check(changes[from], limits) {
            Ok(_) => config_changes_check(changes, limits, from + 1),
            Err(e) => Err(e),
        }
    }
}

/// What checking a whole body comes to: its counts, then its drawings, its drawing changes,
/// its configs and its config changes, up to the first refusal.
pub open spec fn payload_check(payload: SyncRequest, limits: SyncLimits) -> Result<(), ErrorView> {
    match count_check(payload, limits) {
        Err(e) => Err(e),
        Ok(_) => match drawings_check(payload.drawings@, limits, 0) {
            Err(e) => Err(e),
            Ok(_) => match drawing_changes_check(payload.drawing_changes@, limits, 0) {
                Err(e) => Err(e),
                Ok(_) => match configs_check(payload.configs@, limits, 0) {
                    Err(e) => Err(e),
                    Ok(_) => config_changes_check(payload.config_changes@, limits, 0),
                },
            },
        },
    }
}

/// Checks every bounded field in one sync body.
pub fn validate_sync_payload(payload: &SyncRequest, limits: &SyncLimits) -> (r: Result<
    (),
    AppError,
>)
    ensures
        outcome(r) == payload_check(*payload, *limits),
{
    match check_item_counts(payload, limits) {
        Ok(_) => {},
        Err(e) => {
            return Err(e);
        },
    }
    let mut i: usize = 0;
    while i < payload.drawings.len()
        invariant
            i <= payload.drawings.len(),
            count_check(*payload, *limits) is Ok,
            drawings_check(payload.drawings@, *limits, 0) == drawings_check(
                payload.drawings@,
                *limits,
                i as int,
            ),
        decreases payload.drawings.len() - i,
    {
        match check_drawing_item(&payload.drawings[i], limits) {
            Ok(_) => {},
            Err(e) => {
                return Err(e);
            },
        }
        i = i + 1;
    }
    let mut i: usize = 0;
    while i < payload.drawing_changes.len()
        invariant
            i <= payload.drawing_changes.len(),
            count_check(*payload, *limits) is Ok,
            drawings_check(payload.drawings@, *limits, 0) is Ok,
            drawing_changes_check(payload.drawing_changes@, *limits, 0) == drawing_changes_check(
                payload.drawing_changes@,
                *limits,
                i as int,
            ),
        decreases payload.drawing_changes.len() - i,
    {
        match check_drawing_change(&payload.drawing_changes[i], limits) {
            Ok(_) => {},
            Err(e) => {
                return Err(e);
            },
        }
        i = i + 1;
    }
    let mut i: usize = 0;
    while i < payload.configs.len()
        invariant
            i <= payload.configs.len(),
            count_check(*payload, *limits) is Ok,
            drawings_check(payload.drawings@, *limits, 0) is Ok,
            drawing_changes_check(payload.drawing_changes@, *limits, 0) is Ok,
            configs_check(payload.configs@, *limits, 0) == configs_check(
                payload.configs@,
                *limits,
                i as int,
            ),
        decreases payload.configs.len() - i,
    {
        match check_config_item(&payload.configs[i], limits) {
            Ok(_) => {},
            Err(e) => {
                return Err(e);
            },
        }
        i = i + 1;
    }
    let mut i: usize = 0;
    while i < payload.config_changes.len()
        invariant
            i <= payload.config_changes.len(),
            count_check(*payload, *limits) is Ok,
            drawings_check(payload.drawings@, *limits, 0) is Ok,
            drawing_changes_check(payload.drawing_changes@, *limits, 0) is Ok,
            configs_check(payload.configs@, *limits, 0) is Ok,
            config_changes_check(payload.config_changes@, *limits, 0) == config_changes_check(
                payload.config_changes@,
                *limits,
                i as int,
            ),
        decreases payload.config_changes.len() - i,
    {
        match check_config_change(&payload.config_changes[i], limits) {
            Ok(_) => {},
            Err(e) => {
                return Err(e);
            },
        }
        i = i + 1;
    }
    Ok(())
}

/// Whether a picture is within its bounds.
pub open spec fn picture_fits(data: Json, limits: SyncLimits) -> bool {
    byte_len(encoding(data)) <= limits.max_drawing_data_bytes && capped(depth(data))
        <= limits.max_drawing_data_depth
}

/// Whether a config's key and value are within their bounds.
pub open spec fn config_fits(key: Seq<char>, value: Seq<char>, limits: SyncLimits) -> bool {
    byte_len(key) <= limits.max_config_key_bytes && byte_len(value)
        <= limits.max_config_value_bytes
}

/// Whether the key and value a change carries, whether or not the rest of it can be read, are
/// within their bounds.
pub open spec fn config_change_fits(change: ConfigChangeDelta, limits: SyncLimits) -> bool {
    match change.data {
        Payload::Missing => true,
        Payload::Item(item) => config_fits(item.key@, item.value@, limits),
        _ => config_fits(
            text_or_empty(change.stray_key),
            text_or_empty(change.stray_value),
            limits,
        ),
    }
}

/// Whether a body is within every bound.
pub open spec fn body_fits(payload: SyncRequest, limits: SyncLimits) -> bool {
    &&& forall|i: int|
        0 <= i < collection_sizes(payload).len() ==> #[trigger] collection_sizes(payload)[i]
            <= limits.max_items_per_collection
    &&& total(collection_sizes(payload)) <= limits.max_items_total
    &&& forall|i: int|
        0 <= i < payload.drawings@.len() ==> picture_fits(
            (#[trigger] payload.drawings@[i]).data,
            limits,
        )
    &&& forall|i: int|
        0 <= i < payload.drawing_changes@.len() ==> (blob_of(
            #[trigger] payload.drawing_changes@[i],
        ) matches Some(blob) ==> picture_fits(blob, limits))
    &&& forall|i: int|
        0 <= i < payload.configs@.len() ==> config_fits(
            (#[trigger] payload.configs@[i]).key@,
            payload.configs@[i].value@,
            limits,
        )
    &&& forall|i: int|
        0 <= i < payload.config_changes@.len() ==> config_change_fits(
            #[trigger] payload.config_changes@[i],
            limits,
        )
}

proof fn counts_fit(names: Seq<Seq<char>>, sizes: Seq<nat>, limit: usize, from: int)
    requires
        0 <= from <= sizes.len(),
    ensures
        first_overfull(names, sizes, limit, from) is None <==> forall|i: int|
            from <= i < sizes.len() ==> #[trigger] sizes[i] <= limit,
    decreases sizes.len() - from,
{
    if from < sizes.len() {
        counts_fit(names, sizes, limit, from + 1);
    }
}

proof fn drawings_fit(items: Seq<DrawingSyncItem>, limits: SyncLimits, from: int)
    requires
        0 <= from <= items.len(),
    ensures
        drawings_check(items, limits, from) is Ok <==> forall|i: int|
            from <= i < items.len() ==> picture_fits((#[trigger] items[i]).data, limits),
    decreases items.len() - from,
{
    if from < items.len() {
        drawings_fit(items, limits, from + 1);
    }
}

proof fn drawing_changes_fit(changes: Seq<DrawingChangeDelta>, limits: SyncLimits, from: int)
    requires
        0 <= from <= changes.len(),
    ensures
        drawing_changes_check(changes, limits, from) is Ok <==> forall|i: int|
            from <= i < changes.len() ==> (blob_of(#[trigger] changes[i]) matches Some(blob)
                ==> picture_fits(blob, limits)),
    decreases changes.len() - from,
{
    if from < changes.len() {
        drawing_changes_fit(changes, limits, from + 1);
    }
}

proof fn configs_fit(items: Seq<ConfigSyncItem>, limits: SyncLimits, from: int)
    requires
        0 <= from <= items.len(),
    ensures
        configs_check(items, limits, from) is Ok <==> forall|i: int|
            from <= i < items.len() ==> config_fits(
                (#[trigger] items[i]).key@,
                items[i].value@,
                limits,
            ),
    decreases items.len() - from,
{
    if from < items.len() {
        configs_fit(items, limits, from + 1);
    }
}

proof fn config_changes_fit(changes: Seq<ConfigChangeDelta>, limits: SyncLimits, from: int)
    requires
        0 <= from <= changes.len(),
    ensures
        config_changes_check(changes, limits, from) is Ok <==> forall|i: int|
            from <= i < changes.len() ==> config_change_fits(#[trigger] changes[i], limits),
    decreases changes.len() - from,
{
    if from < changes.len() {
        config_changes_fit(changes, limits, from + 1);
    }
}

/// A body passes exactly if it is bounded: no change vector and no sum of them is over its
/// limit, no key, value or picture is longer than it may be, and no picture is nested deeper.
pub proof fn a_passed_body_is_bounded(payload: SyncRequest, limits: SyncLimits)
    ensures
        payload_check(payload, limits) is Ok <==> body_fits(payload, limits),
{
    counts_fit(
        collection_names(),
        collection_sizes(payload),
        limits.max_items_per_collection,
        0,
    );
    drawings_fit(payload.drawings@, limits, 0);
    drawing_changes_fit(payload.drawing_changes@, limits, 0);
    configs_fit(payload.configs@, limits, 0);
    config_changes_fit(payload.config_changes@, limits, 0);
}

/// A body is let through exactly if each of its twelve change vectors and all of them together
/// are within their limits, each picture, whether it is in the flat list, in a change or astray
/// in a change that cannot be read, is short and shallow enough, and each key and value is short
/// enough. Whatever is not is the client's mistake.
pub proof fn a_body_is_let_through_exactly_if_it_is_bounded(
    payload: &SyncRequest,
    limits: &SyncLimits,
    r: Result<(), AppError>,
)
    requires
        call_ensures(validate_sync_payload, (payload, limits), r),
    ensures
        r matches Err(e) ==> e@ is BadRequest,
        r is Ok <==> {
            let most = limits.max_items_per_collection;
            &&& payload.todo_list_changes@.len() <= most
            &&& payload.todo_changes@.len() <= most
            &&& payload.grocery_list_changes@.len() <= most
            &&& payload.grocery_list_member_changes@.len() <= most
            &&& payload.store_changes@.len() <= most
            &&& payload.category_changes@.len() <= most
            &&& payload.grocery_changes@.len() <= most
            &&& payload.grocery_item_store_info_changes@.len() <= most
            &&& payload.config_changes@.len() <= most
            &&& payload.drawing_changes@.len() <= most
            &&& payload.configs@.len() <= most
            &&& payload.drawings@.len() <= most
            &&& payload.todo_list_changes@.len() + payload.todo_changes@.len()
                + payload.grocery_list_changes@.len() + payload.grocery_list_member_changes@.len()
                + payload.store_changes@.len() + payload.category_changes@.len()
                + payload.grocery_changes@.len() + payload.grocery_item_store_info_changes@.len()
                + payload.config_changes@.len() + payload.drawing_changes@.len()
                + payload.configs@.len() + payload.drawings@.len() <= limits.max_items_total
            &&& forall|i: int|
                0 <= i < payload.drawings@.len() ==> is_bounded_picture(
                    (#[trigger] payload.drawings@[i]).data,
                    *limits,
                )
            &&& forall|i: int|
                0 <= i < payload.drawing_changes@.len() ==> match (
                #[trigger] payload.drawing_changes@[i]).data {
                    Payload::Item(sent) => is_bounded_picture(sent.data, *limits),
                    _ => payload.drawing_changes@[i].stray_blob matches Some(blob)
                        ==> is_bounded_picture(blob, *limits),
                }
            &&& forall|i: int|
                0 <= i < payload.configs@.len() ==> byte_len(
                    (#[trigger] payload.configs@[i]).key@,
                ) <= limits.max_config_key_bytes && byte_len(payload.configs@[i].value@)
                    <= limits.max_config_value_bytes
            &&& forall|i: int|
                0 <= i < payload.config_changes@.len() ==> match (
                #[trigger] payload.config_changes@[i]).data {
                    Payload::Missing => true,
                    Payload::Item(sent) => byte_len(sent.key@) <= limits.max_config_key_bytes
                        && byte_len(sent.value@) <= limits.max_config_value_bytes,
                    _ => byte_len(text_or_empty(payload.config_changes@[i].stray_key))
                        <= limits.max_config_key_bytes && byte_len(
                        text_or_empty(payload.config_changes@[i].stray_value),
                    ) <= limits.max_config_value_bytes,
                }
        },
{
    a_passed_body_is_bounded(*payload, *limits);
    refusals_are_the_clients(*payload, *limits);
    let sizes = collection_sizes(*payload);
    totalled(sizes);
    assert(sizes[0] == payload.todo_list_changes@.len());
    assert(sizes[1] == payload.todo_changes@.len());
    assert(sizes[2] == payload.grocery_list_changes@.len());
    assert(sizes[3] == payload.grocery_list_member_changes@.len());
    assert(sizes[4] == payload.store_changes@.len());
    assert(sizes[5] == payload.category_changes@.len());
    assert(sizes[6] == payload.grocery_changes@.len());
    assert(sizes[7] == payload.grocery_item_store_info_changes@.len());
    assert(sizes[8] == payload.config_changes@.len());
    assert(sizes[9] == payload.drawing_changes@.len());
    assert(sizes[10] == payload.configs@.len());
    assert(sizes[11] == payload.drawings@.len());
}

/// Whether a picture's compact encoding is short enough and the picture shallow enough.
pub open spec fn is_bounded_picture(data: Json, limits: SyncLimits) -> bool {
    byte_len(encoding(data)) <= limits.max_drawing_data_bytes && capped(depth(data))
        <= limits.max_drawing_data_depth
}

proof fn totalled(sizes: Seq<nat>)
    requires
        sizes.len() == 12,
    ensures
        total(sizes) == sizes[0] + sizes[1] + sizes[2] + sizes[3] + sizes[4] + sizes[5] + sizes[6]
            + sizes[7] + sizes[8] + sizes[9] + sizes[10] + sizes[11],
{
    reveal_with_fuel(total, 13);
}

proof fn refusals_are_the_clients(payload: SyncRequest, limits: SyncLimits)
    ensures
        payload_check(payload, limits) matches Err(e) ==> e is BadRequest,
{
    overfull_is_the_clients(
        collection_names(),
        collection_sizes(payload),
        limits.max_items_per_collection,
        0,
    );
    pictures_are_the_clients(payload, limits, 0);
    configs_are_the_clients(payload, limits, 0);
}

proof fn overfull_is_the_clients(names: Seq<Seq<char>>, sizes: Seq<nat>, limit: usize, from: int)
    ensures
        first_overfull(names, sizes, limit, from) matches Some(e) ==> e is BadRequest,
    decreases sizes.len() - from,
{
    if 0 <= from < sizes.len() {
        overfull_is_the_clients(names, sizes, limit, from + 1);
    }
}

proof fn pictures_are_the_clients(payload: SyncRequest, limits: SyncLimits, from: int)
    ensures
        drawings_check(payload.drawings@, limits, from) matches Err(e) ==> e is BadRequest,
        drawing_changes_check(payload.drawing_changes@, limits, from) matches Err(e)
            ==> e is BadRequest,
    decreases payload.drawings@.len() + payload.drawing_changes@.len() - from,
{
    if 0 <= from && from < payload.drawings@.len() + payload.drawing_changes@.len() {
        pictures_are_the_clients(payload, limits, from + 1);
    }
}

proof fn configs_are_the_clients(payload: SyncRequest, limits: SyncLimits, from: int)
    ensures
        configs_check(payload.configs@, limits, from) matches Err(e) ==> e is BadRequest,
        config_changes_check(payload.config_changes@, limits, from) matches Err(e)
            ==> e is BadRequest,
    decreases payload.configs@.len() + payload.config_changes@.len() - from,
{
    if 0 <= from && from < payload.configs@.len() + payload.config_changes@.len() {
        configs_are_the_clients(payload, limits, from + 1);
    }
}

/// Each bound is set by its own variable and by no other, and stands at its default where that
/// variable sets none: two environments that agree on a variable agree on its bound.
pub proof fn each_bound_has_a_variable_of_its_own(
    one: &RawLimits,
    other: &RawLimits,
    l: SyncLimits,
    m: SyncLimits,
    standard: SyncLimits,
)
    requires
        call_ensures(SyncLimits::from_env, (one,), l),
        call_ensures(SyncLimits::from_env, (other,), m),
        call_ensures(SyncLimits::default, (), standard),
    ensures
        raw_text(one.max_drawing_data_bytes) == raw_text(other.max_drawing_data_bytes)
            ==> l.max_drawing_data_bytes == m.max_drawing_data_bytes,
        raw_text(one.max_drawing_data_depth) == raw_text(other.max_drawing_data_depth)
            ==> l.max_drawing_data_depth == m.max_drawing_data_depth,
        raw_text(one.max_config_key_bytes) == raw_text(other.max_config_key_bytes)
            ==> l.max_config_key_bytes == m.max_config_key_bytes,
        raw_text(one.max_config_value_bytes) == raw_text(other.max_config_value_bytes)
            ==> l.max_config_value_bytes == m.max_config_value_bytes,
        raw_text(one.max_items_per_collection) == raw_text(other.max_items_per_collection)
            ==> l.max_items_per_collection == m.max_items_per_collection,
        raw_text(one.max_items_total) == raw_text(other.max_items_total) ==> l.max_items_total
            == m.max_items_total,
        raw_text(one.download_page_size) == raw_text(other.download_page_size)
            ==> l.download_page_size == m.download_page_size,
        one.max_drawing_data_bytes is None ==> l.max_drawing_data_bytes
            == standard.max_drawing_data_bytes && standard.max_drawing_data_bytes == 512 * 1024,
        one.max_drawing_data_depth is None ==> l.max_drawing_data_depth
            == standard.max_drawing_data_depth && standard.max_drawing_data_depth == 32,
        one.max_config_key_bytes is None ==> l.max_config_key_bytes == standard.max_config_key_bytes
            && standard.max_config_key_bytes == 128,
        one.max_config_value_bytes is None ==> l.max_config_value_bytes
            == standard.max_config_value_bytes && standard.max_config_value_bytes == 8 * 1024,
        one.max_items_per_collection is None ==> l.max_items_per_collection
            == standard.max_items_per_collection && standard.max_items_per_collection == 10_000,
        one.max_items_total is None ==> l.max_items_total == standard.max_items_total
            && standard.max_items_total == 20_000,
        one.download_page_size is None ==> l.download_page_size == standard.download_page_size
            && standard.download_page_size == 200,
        one.max_drawing_data_bytes matches Some(s) ==> l.max_drawing_data_bytes == setting(
            Some(s@),
            usize::MAX as nat,
            512 * 1024,
        ),
        one.max_drawing_data_depth matches Some(s) ==> l.max_drawing_data_depth == setting(
            Some(s@),
            usize::MAX as nat,
            32,
        ),
        one.max_config_key_bytes matches Some(s) ==> l.max_config_key_bytes == setting(
            Some(s@),
            usize::MAX as nat,
            128,
        ),
        one.max_config_value_bytes matches Some(s) ==> l.max_config_value_bytes == setting(
            Some(s@),
            usize::MAX as nat,
            8 * 1024,
        ),
        one.max_items_per_collection matches Some(s) ==> l.max_items_per_collection == setting(
            Some(s@),
            usize::MAX as nat,
            10_000,
        ),
        one.max_items_total matches Some(s) ==> l.max_items_total == setting(
            Some(s@),
            usize::MAX as nat,
            20_000,
        ),
        one.download_page_size matches Some(s) ==> l.download_page_size == setting(
            Some(s@),
            usize::MAX as nat,
            200,
        ),
{
}

/// A picture passes exactly if its compact encoding is short enough and it is shallow enough,
/// whichever way it is sent, and a change without a picture passes.
pub proof fn a_picture_passes_if_it_is_bounded(
    item: &DrawingSyncItem,
    change: &DrawingChangeDelta,
    limits: &SyncLimits,
    of_item: Result<(), AppError>,
    of_change: Result<(), AppError>,
)
    requires
        call_ensures(check_drawing_item, (item, limits), of_item),
        call_ensures(check_drawing_change, (change, limits), of_change),
    ensures
        of_item is Ok <==> is_bounded_picture(item.data, *limits),
        of_change is Ok <==> match change.data {
            Payload::Item(sent) => is_bounded_picture(sent.data, *limits),
            _ => change.stray_blob matches Some(blob) ==> is_bounded_picture(blob, *limits),
        },
        of_item matches Err(e) ==> e@ is BadRequest,
        of_change matches Err(e) ==> e@ is BadRequest,
{
}

/// A key and a value pass exactly if both are short enough, whichever way they are sent.
pub proof fn a_config_passes_if_it_is_bounded(
    item: &ConfigSyncItem,
    change: &ConfigChangeDelta,
    limits: &SyncLimits,
    of_item: Result<(), AppError>,
    of_change: Result<(), AppError>,
)
    requires
        call_ensures(check_config_item, (item, limits), of_item),
        call_ensures(check_config_change, (change, limits), of_change),
    ensures
        of_item is Ok <==> byte_len(item.key@) <= limits.max_config_key_bytes && byte_len(
            item.value@,
        ) <= limits.max_config_value_bytes,
        change.data is Missing ==> of_change is Ok,
        change.data matches Payload::Item(sent) ==> (of_change is Ok <==> byte_len(sent.key@)
            <= limits.max_config_key_bytes && byte_len(sent.value@)
            <= limits.max_config_value_bytes),
        of_item matches Err(e) ==> e@ is BadRequest,
        of_change matches Err(e) ==> e@ is BadRequest,
{
}

/// Each collection is counted under its own name, in a fixed order.
pub proof fn each_collection_is_counted_under_its_name(
    payload: &SyncRequest,
    c: Vec<(&'static str, usize)>,
)
    requires
        call_ensures(collections, (payload,), c),
    ensures
        c@.len() == 12,
        c@[0].0@ == "todoListChanges"@ && c@[0].1 == payload.todo_list_changes@.len(),
        c@[1].0@ == "todoChanges"@ && c@[1].1 == payload.todo_changes@.len(),
        c@[2].0@ == "groceryListChanges"@ && c@[2].1 == payload.grocery_list_changes@.len(),
        c@[3].0@ == "groceryListMemberChanges"@ && c@[3].1
            == payload.grocery_list_member_changes@.len(),
        c@[4].0@ == "storeChanges"@ && c@[4].1 == payload.store_changes@.len(),
        c@[5].0@ == "categoryChanges"@ && c@[5].1 == payload.category_changes@.len(),
        c@[6].0@ == "groceryChanges"@ && c@[6].1 == payload.grocery_changes@.len(),
        c@[7].0@ == "groceryItemStoreInfoChanges"@ && c@[7].1
            == payload.grocery_item_store_info_changes@.len(),
        c@[8].0@ == "configChanges"@ && c@[8].1 == payload.config_changes@.len(),
        c@[9].0@ == "drawingChanges"@ && c@[9].1 == payload.drawing_changes@.len(),
        c@[10].0@ == "configs"@ && c@[10].1 == payload.configs@.len(),
        c@[11].0@ == "drawings"@ && c@[11].1 == payload.drawings@.len(),
{
    let names = c@.map_values(|e: (&'static str, usize)| e.0@);
    let sizes = c@.map_values(|e: (&'static str, usize)| e.1 as nat);
    assert forall|i: int| 0 <= i < 12 implies #[trigger] c@[i].0@ == collection_names()[i] && c@[i].1
        == collection_sizes(*payload)[i] by {
        assert(names[i] == c@[i].0@);
        assert(sizes[i] == c@[i].1);
    }
}

} // verus!
