use autherium::license::{License, license_format_ok};
use autherium::keygen::select_key;
use autherium::store::{State, AuthOutcome};
use autherium::service::{auth, create_license, ban_hwid, unban_hwid};
use autherium::types::{AuthRequest, CreateRequest, HwidRequest, AuthError};

const SECRET: &str = "super_secret_key";

fn secret() -> String {
    SECRET.to_string()
}

fn fresh_state() -> State {
    State::new()
}

fn issue_one(state: &mut State, days: u64, product: &str) -> License {
    let products = vec![product.to_string()];
    state.issue(days, &products).expect("issue should succeed on an empty store")
}

fn auth_req(license: &str, product: &str, hwid: &str) -> AuthRequest {
    AuthRequest {
        license: license.to_string(),
        product_id: product.to_string(),
        hwid: hwid.to_string(),
    }
}

#[test]
fn issue_sets_duration_key_format_and_uniqueness() {
    let mut state = fresh_state();
    let l1 = issue_one(&mut state, 1, "app1");
    assert_eq!(l1.duration, 86400);
    assert!(!l1.used);
    assert_eq!(l1.start, 0);
    assert!(license_format_ok(&l1.key));
    assert_eq!(l1.key.len(), 16);
    assert_eq!(l1.product_ids, vec!["app1".to_string()]);

    let l2 = issue_one(&mut state, 30, "app1");
    assert_eq!(l2.duration, 30 * 86400);
    assert!(license_format_ok(&l2.key));
    assert_ne!(l1.key, l2.key, "issued keys must be unique among active licenses");
    assert_eq!(state.licenses.len(), 2);
}

#[test]
fn authenticate_activates_once_and_time_remaining_shrinks() {
    let mut state = fresh_state();
    let l = issue_one(&mut state, 1, "app1");

    let r1 = auth(&mut state, &auth_req(&l.key, "app1", "hw-1"), 1000)
        .expect("first authentication should succeed");
    assert_eq!(r1.license_start, 1000);
    assert_eq!(r1.license_duration, 86400);
    assert_eq!(r1.time_remaining, 86400);
    assert!(state.licenses[0].used);
    assert_eq!(state.licenses[0].start, 1000);

    let r2 = auth(&mut state, &auth_req(&l.key, "app1", "hw-1"), 1005)
        .expect("second authentication should succeed");
    assert_eq!(r2.license_start, 1000, "start must not move on re-authentication");
    assert_eq!(r2.time_remaining, 86395);
    assert!(r2.time_remaining <= r1.time_remaining);
    assert_eq!(state.licenses[0].start, 1000);
}

#[test]
fn zero_duration_license_expires_on_activation_then_not_found() {
    let mut state = fresh_state();
    let l = issue_one(&mut state, 0, "app1");
    assert_eq!(l.duration, 0);

    let key = l.key.clone();
    let product = "app1".to_string();
    let r1 = state.authenticate(&key, &product, 500);
    assert_eq!(r1, AuthOutcome::Expired);
    assert_eq!(state.licenses.len(), 0, "the expired record must leave the active store");
    assert_eq!(state.archive.len(), 1, "the expired record must land in the archive");
    assert_eq!(state.archive[0].key, key);
    assert!(state.archive[0].used);

    let r2 = state.authenticate(&key, &product, 501);
    assert_eq!(r2, AuthOutcome::NotFound, "an archived key no longer exists to be found");
}

#[test]
fn expired_license_reported_via_service_then_invalid() {
    let mut state = fresh_state();
    let l = issue_one(&mut state, 0, "app1");
    let r1 = auth(&mut state, &auth_req(&l.key, "app1", "hw-9"), 700);
    assert_eq!(r1.unwrap_err(), AuthError::LicenseExpired);
    let r2 = auth(&mut state, &auth_req(&l.key, "app1", "hw-9"), 701);
    assert_eq!(r2.unwrap_err(), AuthError::InvalidLicense);
}

#[test]
fn wrong_product_is_treated_as_not_found() {
    let mut state = fresh_state();
    let l = issue_one(&mut state, 1, "app1");
    let r = auth(&mut state, &auth_req(&l.key, "app2", "hw-2"), 1000);
    assert_eq!(r.unwrap_err(), AuthError::InvalidLicense);
    assert!(!state.licenses[0].used, "a failed lookup must not activate the license");

    let r = auth(&mut state, &auth_req(&l.key, "app1", "hw-2"), 1000)
        .expect("the right product must authenticate");
    assert_eq!(r.time_remaining, 86400);

    let r = auth(&mut state, &auth_req(&l.key, "app1", "hw-2"), 1003)
        .expect("re-authentication within the window must succeed");
    assert_eq!(r.license_start, 1000);
    assert_eq!(r.time_remaining, 86397);
}

#[test]
fn banned_hwid_rejected_before_every_license_check() {
    let mut state = fresh_state();
    let l = issue_one(&mut state, 1, "app1");
    ban_hwid(
        &mut state,
        &secret(),
        &HwidRequest { hwid: "bad-machine".to_string(), key: secret() },
    )
    .expect("ban with the right secret must succeed");

    let r = auth(&mut state, &auth_req(&l.key, "app1", "bad-machine"), 1000);
    assert_eq!(r.unwrap_err(), AuthError::HwidBanned, "a valid key must not rescue a banned hwid");

    let r = auth(&mut state, &auth_req("no-such-key", "app1", "bad-machine"), 1000);
    assert_eq!(r.unwrap_err(), AuthError::HwidBanned, "the ban check precedes the format check");

    let r = auth(&mut state, &auth_req("not a key", "app1", "good-machine"), 1000);
    assert_eq!(r.unwrap_err(), AuthError::MalformedLicense);
}

#[test]
fn ban_is_idempotent_and_unban_of_absent_is_noop() {
    let mut state = fresh_state();
    let h = "machine-a".to_string();
    state.ban_hwid(&h);
    assert_eq!(state.banned_hwids.len(), 1);
    state.ban_hwid(&h);
    assert_eq!(state.banned_hwids.len(), 1, "banning twice must not grow the set");

    let absent = "machine-b".to_string();
    state.unban_hwid(&absent);
    assert_eq!(state.banned_hwids.len(), 1, "unbanning an absent entry is a no-op");

    state.unban_hwid(&h);
    assert_eq!(state.banned_hwids.len(), 0);
    assert!(!state.is_banned(&h));
}

#[test]
fn ban_and_unban_require_the_admin_secret() {
    let mut state = fresh_state();
    let req = HwidRequest { hwid: "m".to_string(), key: "wrong".to_string() };
    assert_eq!(ban_hwid(&mut state, &secret(), &req).unwrap_err(), AuthError::Unauthorized);
    assert!(!state.is_banned(&"m".to_string()));
    assert_eq!(unban_hwid(&mut state, &secret(), &req).unwrap_err(), AuthError::Unauthorized);

    let good = HwidRequest { hwid: "m".to_string(), key: secret() };
    ban_hwid(&mut state, &secret(), &good).expect("ban with the right secret");
    assert!(state.is_banned(&"m".to_string()));
    unban_hwid(&mut state, &secret(), &good).expect("unban with the right secret");
    assert!(!state.is_banned(&"m".to_string()));
}

#[test]
fn create_license_requires_secret_and_rejects_overflow() {
    let mut state = fresh_state();
    let bad = CreateRequest {
        days: 1,
        key: "not_the_secret".to_string(),
        product_ids: vec!["app1".to_string()],
    };
    assert_eq!(create_license(&mut state, &secret(), &bad).unwrap_err(), AuthError::Unauthorized);
    assert_eq!(state.licenses.len(), 0);

    let overflow = CreateRequest {
        days: u64::MAX / 86400 + 1,
        key: secret(),
        product_ids: vec!["app1".to_string()],
    };
    assert_eq!(
        create_license(&mut state, &secret(), &overflow).unwrap_err(),
        AuthError::InvalidDuration
    );
    assert_eq!(state.licenses.len(), 0);

    let ok = CreateRequest { days: 2, key: secret(), product_ids: vec!["app1".to_string()] };
    let resp = create_license(&mut state, &secret(), &ok).expect("issue must succeed");
    assert!(license_format_ok(&resp.license));
    assert_eq!(state.licenses.len(), 1);
    assert_eq!(state.licenses[0].key, resp.license);
    assert_eq!(state.licenses[0].duration, 2 * 86400);
}

#[test]
fn retry_policy_exhausts_after_the_limit_of_collisions() {
    let taken = "AAAAAAAAAAAAAAAA".to_string();
    let existing = vec![taken.clone()];

    let colliding: Vec<String> = std::iter::repeat(taken.clone()).take(101).collect();
    let r = select_key(&colliding, &existing);
    assert_eq!(r.unwrap_err(), AuthError::ExhaustedRetries);

    let mut with_fresh: Vec<String> = std::iter::repeat(taken.clone()).take(100).collect();
    with_fresh.push("BBBBBBBBBBBBBBBB".to_string());
    let r = select_key(&with_fresh, &existing);
    assert_eq!(r.unwrap(), "BBBBBBBBBBBBBBBB".to_string());
}

#[test]
fn issue_with_colliding_stub_exhausts_retries() {
    let mut state = fresh_state();
    let products = vec!["app1".to_string()];
    let fixed = "CCCCCCCCCCCCCCCC".to_string();

    let seed = vec![fixed.clone()];
    let l = state.issue_with(&seed, 1, &products).expect("the first fixed key is fresh");
    assert_eq!(l.key, fixed);

    let stub: Vec<String> = std::iter::repeat(fixed.clone()).take(101).collect();
    let r = state.issue_with(&stub, 1, &products);
    assert_eq!(r.unwrap_err(), AuthError::ExhaustedRetries);
    assert_eq!(state.licenses.len(), 1, "a failed issue must leave the store unchanged");
}

#[test]
fn snapshot_then_load_restores_the_active_licenses() {
    let mut state = fresh_state();
    let l1 = issue_one(&mut state, 1, "app1");
    let _ = auth(&mut state, &auth_req(&l1.key, "app1", "hw"), 1000).expect("activation");
    let l2 = issue_one(&mut state, 7, "app2");

    let (records, banned) = state.snapshot();
    assert_eq!(records.len(), 2);

    let restored = State::load(records, banned, 1000).expect("a snapshot must load");
    assert_eq!(restored.licenses.len(), 2);
    assert_eq!(restored.licenses[0].key, l1.key);
    assert!(restored.licenses[0].used);
    assert_eq!(restored.licenses[0].start, 1000);
    assert_eq!(restored.licenses[0].duration, 86400);
    assert_eq!(restored.licenses[0].product_ids, vec!["app1".to_string()]);
    assert_eq!(restored.licenses[1].key, l2.key);
    assert!(!restored.licenses[1].used);
    assert_eq!(restored.archive.len(), 0);
}

#[test]
fn load_archives_records_that_expired_while_offline() {
    let mut state = fresh_state();
    let l1 = issue_one(&mut state, 1, "app1");
    let _ = auth(&mut state, &auth_req(&l1.key, "app1", "hw"), 1000).expect("activation");
    let l2 = issue_one(&mut state, 7, "app2");
    state.ban_hwid(&"old-machine".to_string());

    let (records, banned) = state.snapshot();
    let later = 1000 + 86400;
    let restored = State::load(records, banned, later).expect("a snapshot must load");
    assert_eq!(restored.licenses.len(), 1, "the expired license must not reappear active");
    assert_eq!(restored.licenses[0].key, l2.key);
    assert_eq!(restored.archive.len(), 1);
    assert_eq!(restored.archive[0].key, l1.key);
    assert!(restored.is_banned(&"old-machine".to_string()));
}

#[test]
fn load_refuses_records_no_wellformed_store_writes() {
    let products = vec!["app1".to_string()];
    let mut a = License::new("DDDDDDDDDDDDDDDD".to_string(), &products);
    let _ = a.set_days(1);
    let dup = a.clone();
    assert!(State::load(vec![a.clone(), dup], Vec::new(), 10).is_none());

    let malformed = License::new("short".to_string(), &products);
    assert!(State::load(vec![malformed], Vec::new(), 10).is_none());

    assert!(
        State::load(vec![a], vec!["h".to_string(), "h".to_string()], 10).is_none(),
        "a ban list with duplicates is refused"
    );
}

#[test]
fn sweep_moves_expired_records_in_one_batch() {
    let mut state = fresh_state();
    let l1 = issue_one(&mut state, 0, "app1");
    let l2 = issue_one(&mut state, 1, "app1");
    let key1 = l1.key.clone();
    let key2 = l2.key.clone();
    // activate both; the zero-duration one expires on its own activating call
    let r1 = state.authenticate(&key1, &"app1".to_string(), 100);
    assert_eq!(r1, AuthOutcome::Expired);
    let r2 = state.authenticate(&key2, &"app1".to_string(), 100);
    assert!(matches!(r2, AuthOutcome::Success { .. }));

    state.sweep_expired(100);
    assert_eq!(state.licenses.len(), 1, "the live license survives the sweep");

    state.sweep_expired(100 + 86400);
    assert_eq!(state.licenses.len(), 0);
    assert_eq!(state.archive.len(), 2);
    assert_eq!(state.archive[0].key, key1);
    assert_eq!(state.archive[1].key, key2);
}

#[test]
fn time_remaining_saturates_on_huge_windows() {
    let mut state = fresh_state();
    let days = u64::MAX / 86400;
    let products = vec!["app1".to_string()];
    let l = state.issue(days, &products).expect("the largest duration must be accepted");
    assert_eq!(l.duration, days * 86400);
    let r = auth(&mut state, &auth_req(&l.key, "app1", "hw"), 1).expect("authentication");
    assert_eq!(r.time_remaining, i64::MAX);
}
