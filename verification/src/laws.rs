//! The general properties of the authority, proved over the store's model.
//! Each law speaks about the transition functions that the exec operations
//! are proved to implement (`spec_authenticate`, `spec_ban`, `spec_unban`,
//! `spec_load`), so it holds of every run of the library.

use vstd::prelude::*;
use crate::license::LicenseV;
use crate::store::{
    StateV, AuthOutcome, spec_authenticate, spec_ban, spec_unban, spec_load, has_match, match_idx,
    matches_at, keys_unique, clamp_remaining, lemma_update_activated_keeps_wf,
};
use crate::service::spec_auth;
use crate::types::{AuthResponse, AuthError};

verus! {

/// Authenticating a not-yet-used license activates it exactly once: the
/// first call fixes `used` and `start` at its own clock reading, and an
/// immediately following call, any time before the window closes, reports
/// the same `start` and `duration`, a time remaining no larger than the
/// first call's, and changes no record.
pub proof fn lemma_activation_happens_once(
    s: StateV,
    key: Seq<char>,
    pid: Seq<char>,
    now1: u64,
    now2: u64,
)
    requires
        s.wf(),
        now1 >= 1,
        has_match(s.licenses, key, pid),
        !s.licenses[match_idx(s.licenses, key, pid)].used,
        now1 <= now2,
        now2 < now1 + s.licenses[match_idx(s.licenses, key, pid)].duration,
    ensures
        ({
            let i = match_idx(s.licenses, key, pid);
            let d = s.licenses[i].duration;
            let (s1, r1) = spec_authenticate(s, key, pid, now1);
            let (s2, r2) = spec_authenticate(s1, key, pid, now2);
            &&& s1.licenses[i].used && s1.licenses[i].start == now1
            &&& r1 == (AuthOutcome::Success {
                license_start: now1,
                license_duration: d,
                time_remaining: clamp_remaining(now1 + d - now1),
            })
            &&& r2 == (AuthOutcome::Success {
                license_start: now1,
                license_duration: d,
                time_remaining: clamp_remaining(now1 + d - now2),
            })
            &&& s2.licenses == s1.licenses
            &&& r2->Success_time_remaining <= r1->Success_time_remaining
        }),
{
    let i = match_idx(s.licenses, key, pid);
    assert(matches_at(s.licenses, key, pid, i));
    let l1 = s.licenses[i].activated(now1);
    assert(!l1.expired_at(now1));
    let (s1, r1) = spec_authenticate(s, key, pid, now1);
    assert(s1.licenses == s.licenses.update(i, l1));
    lemma_update_activated_keeps_wf(s.licenses, i, now1);
    assert(matches_at(s1.licenses, key, pid, i));
    assert(has_match(s1.licenses, key, pid));
    let m = match_idx(s1.licenses, key, pid);
    assert(matches_at(s1.licenses, key, pid, m));
    assert(m == i);
    assert(s1.licenses[i].activated(now2) == l1);
    assert(!l1.expired_at(now2));
    let (s2, r2) = spec_authenticate(s1, key, pid, now2);
    assert(s2.licenses == s1.licenses.update(i, l1));
    assert(s1.licenses.update(i, l1) =~= s1.licenses);
}

/// A license whose window is already closed when a lookup activates or
/// finds it (for one of zero duration: the activating call itself) is
/// archived and removed, and every later lookup under its key, for any
/// product and at any time, answers `NotFound`, not `Expired`.
pub proof fn lemma_expiry_archives_and_forgets(s: StateV, key: Seq<char>, pid: Seq<char>, now: u64)
    requires
        s.wf(),
        has_match(s.licenses, key, pid),
        ({
            let l = s.licenses[match_idx(s.licenses, key, pid)].activated(now);
            l.start + l.duration <= now
        }),
    ensures
        ({
            let i = match_idx(s.licenses, key, pid);
            let l = s.licenses[i].activated(now);
            let (s1, r1) = spec_authenticate(s, key, pid, now);
            &&& r1 == AuthOutcome::Expired
            &&& s1.licenses == s.licenses.remove(i)
            &&& s1.archive == s.archive.push(l)
            &&& forall|pid2: Seq<char>, now2: u64| #[trigger] spec_authenticate(
                s1,
                key,
                pid2,
                now2,
            ) == (s1, AuthOutcome::NotFound)
        }),
{
    let i = match_idx(s.licenses, key, pid);
    assert(matches_at(s.licenses, key, pid, i));
    let l = s.licenses[i].activated(now);
    assert(l.expired_at(now));
    let (s1, r1) = spec_authenticate(s, key, pid, now);
    assert(s1.licenses == s.licenses.remove(i));
    assert forall|pid2: Seq<char>, now2: u64| #[trigger] spec_authenticate(s1, key, pid2, now2)
        == (s1, AuthOutcome::NotFound) by {
        assert(forall|k: int|
            0 <= k < s1.licenses.len() ==> #[trigger] s1.licenses[k] == (if k < i {
                s.licenses[k]
            } else {
                s.licenses[k + 1]
            }));
        if has_match(s1.licenses, key, pid2) {
            let j = choose|j: int| matches_at(s1.licenses, key, pid2, j);
            assert(matches_at(s1.licenses, key, pid2, j));
            if j < i {
                assert(s.licenses[j].key == s.licenses[i].key);
            } else {
                assert(s.licenses[j + 1].key == s.licenses[i].key);
            }
            assert(false);
        }
    }
}

/// The ban check strictly precedes every license check: a banned machine is
/// refused with `HwidBanned` whatever key it presents — well-formed, valid,
/// expired or nonexistent — and the store is left untouched.
pub proof fn lemma_ban_dominates_auth(s: StateV, hwid: Seq<char>)
    requires
        s.banned_hwids.contains(hwid),
    ensures
        forall|license: Seq<char>, pid: Seq<char>, now: u64| #[trigger] spec_auth(
            s,
            license,
            pid,
            hwid,
            now,
        ) == (s, Err::<AuthResponse, AuthError>(AuthError::HwidBanned)),
{
}

/// Banning is idempotent: banning a hardware id twice leaves the ban set
/// exactly as after the first ban, and banning an already-banned id changes
/// nothing at all; a fresh ban grows the set by one.
pub proof fn lemma_ban_idempotent(s: StateV, h: Seq<char>)
    ensures
        spec_ban(spec_ban(s, h), h) == spec_ban(s, h),
        s.banned_hwids.contains(h) ==> spec_ban(s, h) == s,
        !s.banned_hwids.contains(h) ==> spec_ban(s, h).banned_hwids.len() == s.banned_hwids.len()
            + 1,
{
    if !s.banned_hwids.contains(h) {
        assert(s.banned_hwids.push(h)[s.banned_hwids.len() as int] == h);
        assert(spec_ban(s, h).banned_hwids.contains(h));
    }
}

/// Unbanning an absent hardware id is a no-op, not an error.
pub proof fn lemma_unban_absent_noop(s: StateV, h: Seq<char>)
    requires
        !s.banned_hwids.contains(h),
    ensures
        spec_unban(s, h) == s,
{
}

/// Persisting and restoring round-trips: loading the exact records a
/// well-formed store holds is accepted, keeps the ban list, keeps every
/// license that is still live — all of them, unchanged and in order, if
/// none has expired — and moves the expired ones to the archive instead of
/// letting them reappear active.
pub proof fn lemma_snapshot_load_round_trip(s: StateV, now: u64)
    requires
        s.wf(),
    ensures
        ({
            let r = spec_load(s.licenses, s.banned_hwids, now);
            &&& r is Some
            &&& r->0.banned_hwids == s.banned_hwids
            &&& r->0.licenses == s.licenses.filter(|l: LicenseV| !l.expired_at(now))
            &&& r->0.archive == s.licenses.filter(|l: LicenseV| l.expired_at(now))
            &&& (forall|i: int|
                0 <= i < s.licenses.len() ==> !(#[trigger] s.licenses[i]).expired_at(now))
                ==> r->0.licenses == s.licenses && r->0.archive == Seq::<LicenseV>::empty()
        }),
{
    let r = spec_load(s.licenses, s.banned_hwids, now);
    assert(r is Some);
    assert(r->0.archive =~= s.licenses.filter(|l: LicenseV| l.expired_at(now)));
    if forall|i: int| 0 <= i < s.licenses.len() ==> !(#[trigger] s.licenses[i]).expired_at(now) {
        lemma_filter_all_true(s.licenses, |l: LicenseV| !l.expired_at(now));
        s.licenses.lemma_all_neg_filter_empty(|l: LicenseV| l.expired_at(now));
        assert(r->0.archive =~= Seq::<LicenseV>::empty());
    }
}

/// Filtering with a predicate every element satisfies changes nothing.
proof fn lemma_filter_all_true(ls: Seq<LicenseV>, pred: spec_fn(LicenseV) -> bool)
    requires
        forall|i: int| 0 <= i < ls.len() ==> pred(#[trigger] ls[i]),
    ensures
        ls.filter(pred) == ls,
    decreases ls.len(),
{
    reveal(Seq::filter);
    if ls.len() == 0 {
    } else {
        let prefix = ls.drop_last();
        assert(forall|i: int| 0 <= i < prefix.len() ==> prefix[i] == ls[i]);
        lemma_filter_all_true(prefix, pred);
        assert(pred(ls.last()));
        assert(ls.filter(pred) =~= ls);
    }
}

} // verus!
