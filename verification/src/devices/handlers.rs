//! Registering, naming and listing the tablets of an account.

use crate::error::{outcome, AppError, ErrorView};
use crate::ids::{fresh_uuid, hyphenated, is_random_form, Uuid};
use crate::instant::Instant;
use crate::text::{trim, trimmed};
use vstd::prelude::*;

verus! {

/// One tablet of an account.
#[derive(Debug)]
pub struct DeviceResponse {
    pub id: Uuid,
    pub name: String,
    pub created_at: Instant,
    pub last_seen_at: Option<Instant>,
}

#[derive(Debug)]
pub struct DeviceListResponse {
    pub devices: Vec<DeviceResponse>,
}

#[derive(Debug)]
pub struct RegisterDeviceRequest {
    /// The tablet's own id. Left out only by a client that has none yet.
    pub device_uuid: Option<Uuid>,
    pub name: Option<String>,
}

#[derive(Debug)]
pub struct RenameDeviceRequest {
    pub name: String,
}

/// The id a device registers under: its own, or a random one where it has none.
pub fn id_to_register(requested: Option<Uuid>) -> (id: Uuid)
    ensures
        match requested {
            Some(own) => id == own,
            None => is_random_form(id.bits),
        },
{
    match requested {
        Some(own) => own,
        None => fresh_uuid(),
    }
}

/// What renaming a device to `name` asks for: the name without the white space around it,
/// which has to leave something.
pub open spec fn new_name(name: Seq<char>) -> Result<Seq<char>, ErrorView> {
    if trimmed(name).len() == 0 {
        Err(ErrorView::BadRequest("Device name must not be empty"@))
    } else {
        Ok(trimmed(name))
    }
}

/// The name a device is given.
pub fn rename_device(name: &str) -> (r: Result<String, AppError>)
    ensures
        match r {
            Ok(s) => new_name(name@) == Ok::<Seq<char>, ErrorView>(s@),
            Err(e) => new_name(name@) == Err::<Seq<char>, ErrorView>(e@),
        },
{
    let t = trim(name);
    if t.is_empty() {
        return Err(AppError::BadRequest("Device name must not be empty".to_owned()));
    }
    Ok(t.to_owned())
}

/// The answer for a device the account does not have.
pub open spec fn no_such_device(device: Uuid) -> ErrorView {
    ErrorView::NotFound("Device "@ + hyphenated(device.bits) + " not found"@)
}

/// The answer for a device the account does not have.
pub fn device_not_found(device: Uuid) -> (e: AppError)
    ensures
        e@ == no_such_device(device),
{
    let mut s = "Device ".to_owned();
    s.append(device.text().as_str());
    s.append(" not found");
    AppError::NotFound(s)
}

/// What renaming came to, given how many rows took the name.
pub fn renamed(device: Uuid, rows: u64) -> (r: Result<(), AppError>)
    ensures
        outcome(r) == (if rows == 0 {
            Err::<(), ErrorView>(no_such_device(device))
        } else {
            Ok(())
        }),
{
    if rows == 0 {
        Err(device_not_found(device))
    } else {
        Ok(())
    }
}

/// The device that was asked for, where the account has it.
pub fn fetch_device(device: Uuid, row: Option<DeviceResponse>) -> (r: Result<
    DeviceResponse,
    AppError,
>)
    ensures
        outcome(r) == (match row {
            Some(row) => Ok(row),
            None => Err::<DeviceResponse, ErrorView>(no_such_device(device)),
        }),
{
    match row {
        Some(row) => Ok(row),
        None => Err(device_not_found(device)),
    }
}

/// A device takes the name it is given, without the white space around it, unless nothing is
/// left of it, which is the client's mistake.
pub proof fn a_device_takes_the_name_it_is_given(name: &str, r: Result<String, AppError>)
    requires
        call_ensures(rename_device, (name,), r),
    ensures
        r is Ok <==> trimmed(name@).len() > 0,
        r matches Ok(s) ==> s@ == trimmed(name@),
        r matches Err(e) ==> e@ is BadRequest,
{
}

/// A device is renamed and shown exactly if the account has it; it is shown as it is stored,
/// and both refusals are the same.
pub proof fn a_device_is_found_where_the_account_has_it(
    device: Uuid,
    rows: u64,
    renaming: Result<(), AppError>,
    row: Option<DeviceResponse>,
    shown: Result<DeviceResponse, AppError>,
)
    requires
        call_ensures(renamed, (device, rows), renaming),
        call_ensures(fetch_device, (device, row), shown),
    ensures
        renaming is Ok <==> rows > 0,
        shown is Ok <==> row is Some,
        shown matches Ok(found) ==> row == Some(found),
        renaming matches Err(e) ==> e@ is NotFound,
        shown matches Err(e) ==> e@ is NotFound,
        renaming matches Err(e) ==> (shown matches Err(f) ==> e@ == f@),
{
}

/// A device registers under its own id where it has one.
pub proof fn a_device_keeps_its_own_id(own: Uuid, id: Uuid)
    requires
        call_ensures(id_to_register, (Some(own),), id),
    ensures
        id == own,
{
}

} // verus!
