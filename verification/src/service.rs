//! The authority's entry points: authentication and the admin-gated
//! operations, each specified as a function of the store's model.

use vstd::prelude::*;
use crate::license::{key_format, license_format_ok};
use crate::store::{
    State, StateV, AuthOutcome, spec_authenticate, spec_ban, spec_unban, keys_of,
};
use crate::types::{AuthRequest, AuthResponse, CreateRequest, CreateResponse, HwidRequest,
    AuthError};

verus! {

/// What an authentication request does to the store and returns to the
/// caller.  The ban check comes first and short-circuits everything: a
/// banned machine is refused whatever key it presents.  Then the key format,
/// then the store's own lookup.
pub open spec fn spec_auth(
    s: StateV,
    license: Seq<char>,
    pid: Seq<char>,
    hwid: Seq<char>,
    now: u64,
) -> (StateV, Result<AuthResponse, AuthError>) {
    if s.banned_hwids.contains(hwid) {
        (s, Err(AuthError::HwidBanned))
    } else if !key_format(license) {
        (s, Err(AuthError::MalformedLicense))
    } else {
        let (s1, out) = spec_authenticate(s, license, pid, now);
        match out {
            AuthOutcome::NotFound => (s1, Err(AuthError::InvalidLicense)),
            AuthOutcome::Expired => (s1, Err(AuthError::LicenseExpired)),
            AuthOutcome::Success { license_start, license_duration, time_remaining } => (
                s1,
                Ok(AuthResponse { license_start, license_duration, time_remaining }),
            ),
        }
    }
}

/// Authentication.  Checks, in order and short-circuiting: the ban list,
/// the key format, then the store; maps the store's outcomes to the API's.
pub fn auth(state: &mut State, req: &AuthRequest, now: u64) -> (r: Result<AuthResponse, AuthError>)
    requires
        old(state)@.wf(),
        now >= 1,
    ensures
        final(state)@.wf(),
        (final(state)@, r) == spec_auth(old(state)@, req.license@, req.product_id@, req.hwid@, now),
{
    if state.is_banned(&req.hwid) {
        return Err(AuthError::HwidBanned);
    }
    if !license_format_ok(req.license.as_str()) {
        return Err(AuthError::MalformedLicense);
    }
    match state.authenticate(&req.license, &req.product_id, now) {
        AuthOutcome::NotFound => Err(AuthError::InvalidLicense),
        AuthOutcome::Expired => Err(AuthError::LicenseExpired),
        AuthOutcome::Success { license_start, license_duration, time_remaining } => Ok(
            AuthResponse { license_start, license_duration, time_remaining },
        ),
    }
}

/// Issues a license, gated by the admin secret: wrong secret, no effect.
/// On success the new key is returned and exactly one fresh, unissued
/// record was appended.
pub fn create_license(state: &mut State, admin_secret: &String, req: &CreateRequest) -> (r: Result<
    CreateResponse,
    AuthError,
>)
    requires
        old(state)@.wf(),
    ensures
        final(state)@.wf(),
        req.key@ != admin_secret@ ==> r is Err && r->Err_0 == AuthError::Unauthorized && final(state)@ == old(state)@,
        req.key@ == admin_secret@ ==> {
            &&& (req.days > u64::MAX / 86400) <==> (r is Err && r->Err_0
                == AuthError::InvalidDuration)
            &&& r is Err ==> final(state)@ == old(state)@ && (r->Err_0
                == AuthError::InvalidDuration || r->Err_0 == AuthError::ExhaustedRetries)
            &&& r is Ok ==> ({
                let ls = final(state)@.licenses;
                let l = ls.last();
                &&& ls == old(state)@.licenses.push(l)
                &&& final(state)@ == (StateV { licenses: ls, ..old(state)@ })
                &&& l.key == r->Ok_0.license@
                &&& key_format(l.key)
                &&& !keys_of(old(state)@.licenses).contains(l.key)
                &&& l.used == false
                &&& l.start == 0
                &&& l.duration == req.days * 86400
                &&& l.product_ids == req.product_ids.deep_view()
            })
        },
{
    if !(req.key == *admin_secret) {
        return Err(AuthError::Unauthorized);
    }
    match state.issue(req.days, &req.product_ids) {
        Ok(l) => Ok(CreateResponse { license: l.key }),
        Err(e) => Err(e),
    }
}

/// Bans a hardware fingerprint, gated by the admin secret.  The insert is
/// idempotent: banning a banned machine changes nothing.
pub fn ban_hwid(state: &mut State, admin_secret: &String, req: &HwidRequest) -> (r: Result<
    (),
    AuthError,
>)
    requires
        old(state)@.wf(),
    ensures
        final(state)@.wf(),
        req.key@ != admin_secret@ ==> r is Err && r->Err_0 == AuthError::Unauthorized && final(state)@ == old(state)@,
        req.key@ == admin_secret@ ==> r is Ok && final(state)@ == spec_ban(
            old(state)@,
            req.hwid@,
        ),
{
    if !(req.key == *admin_secret) {
        return Err(AuthError::Unauthorized);
    }
    state.ban_hwid(&req.hwid);
    Ok(())
}

/// Unbans a hardware fingerprint, gated by the admin secret.  Removing an
/// absent entry is a no-op, not an error.
pub fn unban_hwid(state: &mut State, admin_secret: &String, req: &HwidRequest) -> (r: Result<
    (),
    AuthError,
>)
    requires
        old(state)@.wf(),
    ensures
        final(state)@.wf(),
        req.key@ != admin_secret@ ==> r is Err && r->Err_0 == AuthError::Unauthorized && final(state)@ == old(state)@,
        req.key@ == admin_secret@ ==> r is Ok && final(state)@ == spec_unban(
            old(state)@,
            req.hwid@,
        ),
{
    if !(req.key == *admin_secret) {
        return Err(AuthError::Unauthorized);
    }
    state.unban_hwid(&req.hwid);
    Ok(())
}

} // verus!
