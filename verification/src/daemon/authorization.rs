//! Caller authorization: a caller may act only as the user it is. When the
//! caller cannot be resolved the request is denied.
use vstd::prelude::*;
use crate::session::{user_id_of, UserSessionManager};

verus! {

/// A denied request, with the reason.
#[derive(Clone, Debug)]
pub struct AccessDenied(pub String);

/// Verify that the caller's Unix user ID is the requested one.
pub fn verify_unix_user(caller_unix_id: u32, requested_unix_id: u32) -> (r: Result<(), AccessDenied>)
    ensures
        r is Ok <==> caller_unix_id == requested_unix_id,
        r matches Err(AccessDenied(m)) ==> m@ == "Unix user ID mismatch: access denied"@,
{
    if caller_unix_id == requested_unix_id {
        Ok(())
    } else {
        Err(AccessDenied("Unix user ID mismatch: access denied".to_owned()))
    }
}

/// Verify that the caller's Unix user ID maps to the requested internal
/// user ID.
pub fn verify_internal_user(caller_unix_id: u32, requested_user_id: &str, session_manager: &UserSessionManager) -> (r: Result<(), AccessDenied>)
    ensures
        r is Ok <==> user_id_of(session_manager.machine(), caller_unix_id) == requested_user_id@,
        r matches Err(AccessDenied(m)) ==> m@ == "User ID mismatch: access denied"@,
{
    let caller_internal_id = session_manager.get_user_id(caller_unix_id);
    let requested = requested_user_id.to_owned();
    if caller_internal_id == requested {
        Ok(())
    } else {
        Err(AccessDenied("User ID mismatch: access denied".to_owned()))
    }
}

} // verus!
