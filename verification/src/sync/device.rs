//! Which device a request, or one uploaded row, belongs to.

use crate::error::{outcome, AppError, ErrorView};
use crate::ids::{fresh_uuid, hyphenated, is_random_form, Uuid};
use crate::text::{raw_text, same_text, trim, trimmed};
use std::collections::HashSet;
use vstd::prelude::*;

verus! {

broadcast use vstd::std_specs::hash::group_hash_axioms;

/// The name of a device that registers itself without one.
pub const DEFAULT_DEVICE_NAME: &'static str = "Tablet";

/// The name a request gives its device: surrounding white space does not count, and a blank
/// name is none.
pub open spec fn given_name(name: Option<Seq<char>>) -> Option<Seq<char>> {
    match name {
        Some(name) => if trimmed(name).len() == 0 {
            None
        } else {
            Some(trimmed(name))
        },
        None => None,
    }
}

/// The name a request gives its device.
pub fn clean_name<'a>(name: Option<&'a str>) -> (given: Option<&'a str>)
    ensures
        raw_text(given) == given_name(raw_text(name)),
{
    match name {
        Some(name) => {
            let t = trim(name);
            if t.is_empty() {
                None
            } else {
                Some(t)
            }
        },
        None => None,
    }
}

/// The name a new device is stored under.
pub open spec fn stored_name(name: Option<Seq<char>>) -> Seq<char> {
    match given_name(name) {
        Some(name) => name,
        None => DEFAULT_DEVICE_NAME@,
    }
}

/// The name a new device is stored under.
pub fn name_to_store(name: Option<&str>) -> (stored: String)
    ensures
        stored@ == stored_name(raw_text(name)),
{
    match clean_name(name) {
        Some(name) => name.to_owned(),
        None => DEFAULT_DEVICE_NAME.to_owned(),
    }
}

/// What a sync request asks of its device.
#[derive(Debug, Clone, Copy, PartialEq, Eq, Structural)]
pub enum SyncDevice {
    /// The request names its device, which is registered on first sight.
    Named(Uuid),
    /// The request names none and speaks for the account's fallback device.
    Fallback,
}

/// Which device a sync request reads and writes as.
pub fn resolve_sync_device(requested: Option<Uuid>) -> (device: SyncDevice)
    ensures
        device == (match requested {
            Some(id) => SyncDevice::Named(id),
            None => SyncDevice::Fallback,
        }),
{
    match requested {
        Some(id) => SyncDevice::Named(id),
        None => SyncDevice::Fallback,
    }
}

/// How a request decides which device an uploaded row belongs to.
#[derive(Debug, Clone, Copy, PartialEq, Eq, Structural)]
pub enum ItemDeviceRule {
    /// The request speaks for one tablet. A row that names no device belongs to it, and a
    /// row naming another device registers that device on first sight.
    RequestDevice(Uuid),
    /// The caller manages devices it is not itself running on. Every row must name a device,
    /// and that device must already be registered to the account.
    RowMustName,
}

/// The device of one row, and what has to hold before it may be used.
#[derive(Debug, Clone, Copy, PartialEq, Eq, Structural)]
pub enum ItemDevice {
    /// The device is known to be the account's.
    Known(Uuid),
    /// The device has to be registered first, by [`ensure_device`].
    Ensure(Uuid),
    /// The device has to be registered already, by [`require_registered_device`].
    Require(Uuid),
}

/// The refusal of a row that has to name its device and does not.
pub open spec fn nameless_row(entity: Seq<char>, item_id: Seq<char>) -> ErrorView {
    ErrorView::BadRequest(entity + " "@ + item_id + " must carry a device_uuid"@)
}

/// The device of one uploaded row.
pub open spec fn item_device(
    rule: ItemDeviceRule,
    named: Option<Uuid>,
    entity: Seq<char>,
    item_id: Seq<char>,
) -> Result<ItemDevice, ErrorView> {
    match rule {
        ItemDeviceRule::RequestDevice(request) => match named {
            Some(device) => if device == request {
                Ok(ItemDevice::Known(device))
            } else {
                Ok(ItemDevice::Ensure(device))
            },
            None => Ok(ItemDevice::Known(request)),
        },
        ItemDeviceRule::RowMustName => match named {
            Some(device) => Ok(ItemDevice::Require(device)),
            None => Err(nameless_row(entity, item_id)),
        },
    }
}

/// Resolves the device a single uploaded row belongs to.
pub fn resolve_item_device(
    rule: ItemDeviceRule,
    named: Option<Uuid>,
    entity: &str,
    item_id: &str,
) -> (device: Result<ItemDevice, AppError>)
    ensures
        outcome(device) == item_device(rule, named, entity@, item_id@),
{
    match rule {
        ItemDeviceRule::RequestDevice(request) => match named {
            Some(device) => if device == request {
                Ok(ItemDevice::Known(device))
            } else {
                Ok(ItemDevice::Ensure(device))
            },
            None => Ok(ItemDevice::Known(request)),
        },
        ItemDeviceRule::RowMustName => match named {
            Some(device) => Ok(ItemDevice::Require(device)),
            None => {
                let mut s = entity.to_owned();
                s.append(" ");
                s.append(item_id);
                s.append(" must carry a device_uuid");
                Err(AppError::BadRequest(s))
            },
        },
    }
}

/// Which of the devices a batch names are worth looking up before its rows are: none, unless
/// rows have to name a registered device.
pub fn registered_device_set(rule: ItemDeviceRule, candidates: Vec<Uuid>) -> (lookup: Vec<Uuid>)
    ensures
        lookup@ == (if rule == ItemDeviceRule::RowMustName {
            candidates@
        } else {
            Seq::<Uuid>::empty()
        }),
{
    match rule {
        ItemDeviceRule::RowMustName => candidates,
        ItemDeviceRule::RequestDevice(_) => Vec::new(),
    }
}

/// The account's registered devices out of those a batch names.
pub struct RegisteredDevices {
    ids: HashSet<u128>,
}

impl RegisteredDevices {
    pub closed spec fn view(&self) -> Set<u128> {
        self.ids@
    }

    /// The set of the devices in a list.
    pub fn of(ids: &Vec<Uuid>) -> (set: RegisteredDevices)
        ensures
            forall|id: Uuid| #[trigger] set@.contains(id.bits) <==> ids@.contains(id),
    {
        let mut set: HashSet<u128> = HashSet::new();
        let mut i: usize = 0;
        while i < ids.len()
            invariant
                i <= ids.len(),
                forall|id: Uuid| #[trigger]
                    set@.contains(id.bits) <==> exists|k: int|
                        0 <= k < i && #[trigger] ids@[k] == id,
            decreases ids.len() - i,
        {
            let ghost before = set@;
            set.insert(ids[i].bits);
            proof {
                assert forall|id: Uuid| #[trigger] set@.contains(id.bits) <==> exists|k: int|
                    0 <= k < i + 1 && #[trigger] ids@[k] == id by {
                    if set@.contains(id.bits) {
                        if before.contains(id.bits) {
                            let k = choose|k: int| 0 <= k < i && #[trigger] ids@[k] == id;
                            assert(ids@[k] == id);
                        } else {
                            assert(ids@[i as int] == id);
                        }
                    }
                    if exists|k: int| 0 <= k < i + 1 && #[trigger] ids@[k] == id {
                        let k = choose|k: int| 0 <= k < i + 1 && #[trigger] ids@[k] == id;
                        if k < i {
                            assert(before.contains(id.bits));
                        }
                    }
                }
            }
            i = i + 1;
        }
        RegisteredDevices { ids: set }
    }

    /// Whether the device is in the set.
    pub fn contains(&self, id: Uuid) -> (b: bool)
        ensures
            b == self@.contains(id.bits),
    {
        self.ids.contains(&id.bits)
    }
}

/// The device of one row, where the batch's devices have been looked up.
pub open spec fn cached_item_device(
    rule: ItemDeviceRule,
    named: Option<Uuid>,
    entity: Seq<char>,
    item_id: Seq<char>,
    registered: Set<u128>,
) -> Result<ItemDevice, ErrorView> {
    match item_device(rule, named, entity, item_id) {
        Ok(ItemDevice::Require(device)) => if registered.contains(device.bits) {
            Ok(ItemDevice::Known(device))
        } else {
            Ok(ItemDevice::Require(device))
        },
        other => other,
    }
}

/// [`resolve_item_device`] with the lookup of registered devices already done for the whole
/// batch. A device that was not found then is still looked up on its own.
pub fn resolve_item_device_cached(
    rule: ItemDeviceRule,
    named: Option<Uuid>,
    entity: &str,
    item_id: &str,
    registered: &RegisteredDevices,
) -> (device: Result<ItemDevice, AppError>)
    ensures
        outcome(device) == cached_item_device(rule, named, entity@, item_id@, registered@),
{
    if let ItemDeviceRule::RowMustName = rule {
        if let Some(device) = named {
            if registered.contains(device) {
                return Ok(ItemDevice::Known(device));
            }
        }
    }
    resolve_item_device(rule, named, entity, item_id)
}

/// The refusal of a device the account has not registered.
pub open spec fn unregistered_device(device: Uuid) -> ErrorView {
    ErrorView::NotFound(
        "Device "@ + hyphenated(device.bits) + " is not registered to this account"@,
    )
}

/// Asserts that a device is registered to the account, given whether the account has a row
/// for it. Unknown ids and ids of other accounts are reported alike.
pub fn require_registered_device(device: Uuid, owned: bool) -> (r: Result<(), AppError>)
    ensures
        outcome(r) == (if owned {
            Ok(())
        } else {
            Err::<(), ErrorView>(unregistered_device(device))
        }),
{
    if owned {
        Ok(())
    } else {
        let mut s = "Device ".to_owned();
        s.append(device.text().as_str());
        s.append(" is not registered to this account");
        Err(AppError::NotFound(s))
    }
}

/// A device as the server holds it.
#[derive(Debug)]
pub struct DeviceRow {
    pub user_id: Uuid,
    pub name: String,
}

/// What registering a device writes.
#[derive(Debug)]
pub enum DeviceWrite {
    /// The device stands as it is.
    Nothing,
    /// The device takes a new name.
    Rename(String),
    /// The device is added to the account under this name.
    Register(String),
}

/// [`DeviceWrite`] with its text as mathematical text.
pub enum DeviceWriteView {
    Nothing,
    Rename(Seq<char>),
    Register(Seq<char>),
}

impl View for DeviceWrite {
    type V = DeviceWriteView;

    open spec fn view(&self) -> DeviceWriteView {
        match *self {
            DeviceWrite::Nothing => DeviceWriteView::Nothing,
            DeviceWrite::Rename(name) => DeviceWriteView::Rename(name@),
            DeviceWrite::Register(name) => DeviceWriteView::Register(name@),
        }
    }
}

/// A result with its write as mathematical text.
pub open spec fn device_outcome(r: Result<DeviceWrite, AppError>) -> Result<
    DeviceWriteView,
    ErrorView,
> {
    match r {
        Ok(w) => Ok(w@),
        Err(e) => Err(e@),
    }
}

/// What registering a device for an account comes to.
///
/// A device of the account is renamed where a different name is given. A device of another
/// account is refused. A new device is added unless the account is at its cap, so that the
/// cap never refuses a device that is registered already.
pub open spec fn registration(
    user_id: Uuid,
    device: Uuid,
    name: Option<Seq<char>>,
    existing: Option<DeviceRow>,
    registered: i64,
    cap: i64,
) -> Result<DeviceWriteView, ErrorView> {
    match existing {
        Some(row) => if row.user_id == user_id {
            match given_name(name) {
                Some(given) => if given != row.name@ {
                    Ok(DeviceWriteView::Rename(given))
                } else {
                    Ok(DeviceWriteView::Nothing)
                },
                None => Ok(DeviceWriteView::Nothing),
            }
        } else {
            Err(
                ErrorView::Forbidden(
                    "Device "@ + hyphenated(device.bits) + " does not belong to this account"@,
                ),
            )
        },
        None => if registered >= cap {
            Err(
                ErrorView::TooManyRequests(
                    "Account already has the maximum of "@ + crate::text::signed_decimal(
                        cap as int,
                    ) + " registered devices"@,
                ),
            )
        } else {
            Ok(DeviceWriteView::Register(stored_name(name)))
        },
    }
}

/// Registers a device for an account: `existing` is the row under the device's id, whoever
/// owns it, and `registered` the number of devices the account has.
pub fn ensure_device(
    user_id: Uuid,
    device: Uuid,
    name: Option<&str>,
    existing: Option<&DeviceRow>,
    registered: i64,
    cap: i64,
) -> (r: Result<DeviceWrite, AppError>)
    ensures
        device_outcome(r) == registration(
            user_id,
            device,
            raw_text(name),
            crate::sync::lookup::deref_opt(existing),
            registered,
            cap,
        ),
{
    match existing {
        Some(row) => if row.user_id == user_id {
            match clean_name(name) {
                Some(given) => if !same_text(given, row.name.as_str()) {
                    Ok(DeviceWrite::Rename(given.to_owned()))
                } else {
                    Ok(DeviceWrite::Nothing)
                },
                None => Ok(DeviceWrite::Nothing),
            }
        } else {
            let mut s = "Device ".to_owned();
            s.append(device.text().as_str());
            s.append(" does not belong to this account");
            Err(AppError::Forbidden(s))
        },
        None => if registered >= cap {
            let mut s = "Account already has the maximum of ".to_owned();
            s.append(crate::text::signed_decimal_text(cap).as_str());
            s.append(" registered devices");
            Err(AppError::TooManyRequests(s))
        } else {
            Ok(DeviceWrite::Register(name_to_store(name)))
        },
    }
}

/// The device of a request that names none.
#[derive(Debug)]
pub struct FallbackDevice {
    pub id: Uuid,
    /// The name to register it under, where the account has no device yet.
    pub register: Option<String>,
}

/// The account's fallback device, given the id a new one would take: its oldest, or the new
/// one where it has none. Not capped: it adds a device only to an account without any.
pub fn choose_fallback_device(oldest: Option<Uuid>, fresh: Uuid, name: Option<&str>) -> (device:
    FallbackDevice)
    ensures
        match oldest {
            Some(id) => device.id == id && device.register is None,
            None => device.id == fresh && crate::text::opt_text(device.register) == Some(
                stored_name(raw_text(name)),
            ),
        },
{
    match oldest {
        Some(id) => FallbackDevice { id, register: None },
        None => FallbackDevice { id: fresh, register: Some(name_to_store(name)) },
    }
}

/// The account's fallback device: its oldest, or a new one under a random id where it has
/// none.
pub fn fallback_device(oldest: Option<Uuid>, name: Option<&str>) -> (device: FallbackDevice)
    ensures
        match oldest {
            Some(id) => device.id == id && device.register is None,
            None => is_random_form(device.id.bits) && crate::text::opt_text(device.register)
                == Some(stored_name(raw_text(name))),
        },
{
    match oldest {
        Some(id) => FallbackDevice { id, register: None },
        None => choose_fallback_device(None, fresh_uuid(), name),
    }
}

/// A device that is already the account's is never refused, however many devices the
/// account has.
pub proof fn a_registered_device_is_never_refused(
    user_id: Uuid,
    device: Uuid,
    name: Option<Seq<char>>,
    row: DeviceRow,
    registered: i64,
    cap: i64,
)
    requires
        row.user_id == user_id,
    ensures
        registration(user_id, device, name, Some(row), registered, cap) is Ok,
        !(registration(user_id, device, name, Some(row), registered, cap) matches Ok(
            DeviceWriteView::Register(_),
        )),
{
}

/// Registering devices one after the other never takes an account past its cap: a device is
/// added only while there is room for it.
pub proof fn registration_keeps_the_cap(
    user_id: Uuid,
    device: Uuid,
    name: Option<Seq<char>>,
    existing: Option<DeviceRow>,
    registered: i64,
    cap: i64,
)
    ensures
        registration(user_id, device, name, existing, registered, cap) matches Ok(
            DeviceWriteView::Register(_),
        ) ==> existing is None && registered + 1 <= cap,
{
}

/// A caller that manages devices from outside never brings one into being, and a row that
/// names no device is refused.
pub proof fn a_managing_caller_registers_nothing(
    named: Option<Uuid>,
    entity: Seq<char>,
    item_id: Seq<char>,
    registered: Set<u128>,
)
    ensures
        !(cached_item_device(ItemDeviceRule::RowMustName, named, entity, item_id, registered)
            matches Ok(ItemDevice::Ensure(_))),
        cached_item_device(ItemDeviceRule::RowMustName, named, entity, item_id, registered) is Err
            <==> named is None,
{
}

/// Looking the batch's devices up beforehand changes no outcome: the row gets the device it
/// would have got, and is spared a lookup only where that lookup would have passed.
pub proof fn the_lookup_changes_no_device(
    rule: ItemDeviceRule,
    named: Option<Uuid>,
    entity: Seq<char>,
    item_id: Seq<char>,
    registered: Set<u128>,
)
    ensures
        match item_device(rule, named, entity, item_id) {
            Ok(ItemDevice::Require(device)) => cached_item_device(
                rule,
                named,
                entity,
                item_id,
                registered,
            ) == Ok::<ItemDevice, ErrorView>(
                if registered.contains(device.bits) {
                    ItemDevice::Known(device)
                } else {
                    ItemDevice::Require(device)
                },
            ),
            same => cached_item_device(rule, named, entity, item_id, registered) == same,
        },
{
}

/// Registering a device that nobody has adds it, under the name it gives or the standard one,
/// while the account has room; a device of the account takes a name that is given and new, and
/// stands otherwise; a device of somebody else stays theirs.
pub proof fn a_device_is_registered_to_one_account(
    user_id: Uuid,
    device: Uuid,
    name: Option<&str>,
    existing: Option<&DeviceRow>,
    registered: i64,
    cap: i64,
    r: Result<DeviceWrite, AppError>,
)
    requires
        call_ensures(ensure_device, (user_id, device, name, existing, registered, cap), r),
    ensures
        existing is None && registered < cap ==> (r matches Ok(DeviceWrite::Register(stored))
            && stored@ == (if name matches Some(s) && trimmed(s@).len() > 0 {
            trimmed(name->0@)
        } else {
            "Tablet"@
        })),
        existing is None && registered >= cap ==> (r matches Err(e) && e@ is TooManyRequests),
        existing matches Some(row) ==> {
            &&& row.user_id != user_id ==> (r matches Err(e) && e@ is Forbidden)
            &&& row.user_id == user_id ==> match r {
                Ok(DeviceWrite::Rename(given)) => name matches Some(s) && given@ == trimmed(s@)
                    && given@.len() > 0 && given@ != row.name@,
                Ok(DeviceWrite::Nothing) => name matches Some(s) ==> trimmed(s@).len() == 0
                    || trimmed(s@) == row.name@,
                _ => false,
            }
        },
{
}

/// A request speaks for the device it names and for the fallback device where it names none:
/// the account's oldest, which is left as it is, or a new one under the name that is given.
pub proof fn a_request_speaks_for_a_device(
    requested: Option<Uuid>,
    device: SyncDevice,
    oldest: Option<Uuid>,
    fresh: Uuid,
    name: Option<&str>,
    chosen: FallbackDevice,
)
    requires
        call_ensures(resolve_sync_device, (requested,), device),
        call_ensures(choose_fallback_device, (oldest, fresh, name), chosen),
    ensures
        requested matches Some(id) ==> device == SyncDevice::Named(id),
        requested is None ==> device == SyncDevice::Fallback,
        oldest matches Some(id) ==> chosen.id == id && chosen.register is None,
        oldest is None ==> chosen.id == fresh && (chosen.register matches Some(stored) && stored@
            == (if name matches Some(s) && trimmed(s@).len() > 0 {
            trimmed(name->0@)
        } else {
            "Tablet"@
        })),
{
}

/// A row belongs to the device it names and, where the request speaks for one tablet, to that
/// tablet if it names none. Only a foreign device has to be seen to first, and one that was
/// found to be the account's need not be; a row that has to name its device and does not is
/// the client's mistake.
pub proof fn a_row_belongs_to_the_device_it_names(
    rule: ItemDeviceRule,
    named: Option<Uuid>,
    entity: &str,
    item_id: &str,
    registered: &RegisteredDevices,
    found: &Vec<Uuid>,
    alone: Result<ItemDevice, AppError>,
    r: Result<ItemDevice, AppError>,
)
    requires
        call_ensures(RegisteredDevices::of, (found,), *registered),
        call_ensures(resolve_item_device, (rule, named, entity, item_id), alone),
        call_ensures(resolve_item_device_cached, (rule, named, entity, item_id, registered), r),
    ensures
        rule matches ItemDeviceRule::RequestDevice(own) ==> {
            &&& named is None || named == Some(own) ==> alone == Ok::<ItemDevice, AppError>(
                ItemDevice::Known(own),
            )
            &&& named matches Some(id) ==> id != own ==> alone == Ok::<ItemDevice, AppError>(
                ItemDevice::Ensure(id),
            )
            &&& r is Ok && alone is Ok && r->Ok_0 == alone->Ok_0
        },
        rule is RowMustName ==> {
            &&& named is None ==> (alone matches Err(e) && e@ is BadRequest) && (r matches Err(e)
                && e@ is BadRequest)
            &&& named matches Some(id) ==> {
                &&& alone == Ok::<ItemDevice, AppError>(ItemDevice::Require(id))
                &&& r == Ok::<ItemDevice, AppError>(
                    if found@.contains(id) {
                        ItemDevice::Known(id)
                    } else {
                        ItemDevice::Require(id)
                    },
                )
            }
        },
{
    if let Some(id) = named {
        assert(registered@.contains(id.bits) <==> found@.contains(id));
    }
}

/// Devices are looked up beforehand, and all that a batch names are, exactly if rows have to
/// name a registered one; and a device that has to be registered passes exactly if the account
/// has it.
pub proof fn devices_are_looked_up_where_they_have_to_be(
    rule: ItemDeviceRule,
    candidates: Vec<Uuid>,
    lookup: Vec<Uuid>,
    device: Uuid,
    owned: bool,
    r: Result<(), AppError>,
)
    requires
        call_ensures(registered_device_set, (rule, candidates), lookup),
        call_ensures(require_registered_device, (device, owned), r),
    ensures
        rule is RowMustName ==> lookup@ == candidates@,
        rule is RequestDevice ==> lookup@.len() == 0,
        r is Ok <==> owned,
        r matches Err(e) ==> e@ is NotFound,
{
}

} // verus!
