//! The authority's state: the active license collection, the ban list and
//! the archive sink, with every transition specified against a mathematical
//! model (`StateV`).

use vstd::prelude::*;
use vstd::pervasive::VecAdditionalExecFns;
use crate::license::{License, LicenseV, key_format, clone_strings};
use crate::keygen::{generate, select_key, contains_string, all_keys_formatted, scan_window};
use crate::types::AuthError;

verus! {

/// The outcome of a store-level authentication.
#[derive(Clone, Copy, Debug, PartialEq, Eq, Structural)]
pub enum AuthOutcome {
    /// The license exists for the product and its window is open.
    Success { license_start: u64, license_duration: u64, time_remaining: i64 },
    /// No active license carries this key for this product.
    NotFound,
    /// The window has closed: the record was archived and removed.
    Expired,
}

/// The store: active licenses, banned hardware ids, and the records archived
/// since this state was constructed.  Callers persist `snapshot` and drain
/// `archive`; the store itself never touches a file.
pub struct State {
    pub licenses: Vec<License>,
    pub banned_hwids: Vec<String>,
    pub archive: Vec<License>,
}

/// The mathematical model of the store.
#[verifier::ext_equal]
pub ghost struct StateV {
    pub licenses: Seq<LicenseV>,
    pub banned_hwids: Seq<Seq<char>>,
    pub archive: Seq<LicenseV>,
}

impl View for State {
    type V = StateV;

    open spec fn view(&self) -> StateV {
        StateV {
            licenses: self.licenses.deep_view(),
            banned_hwids: self.banned_hwids.deep_view(),
            archive: self.archive.deep_view(),
        }
    }
}

/// The keys of the records, in store order.
pub open spec fn keys_of(ls: Seq<LicenseV>) -> Seq<Seq<char>> {
    ls.map_values(|l: LicenseV| l.key)
}

/// No two records carry the same key.
pub open spec fn keys_unique(ls: Seq<LicenseV>) -> bool {
    forall|i: int, j: int|
        0 <= i < ls.len() && 0 <= j < ls.len() && i != j ==> (#[trigger] ls[i]).key != (
        #[trigger] ls[j]).key
}

impl StateV {
    /// The store's invariant: keys are unique across active records, every
    /// record is well-formed, and the ban list holds no duplicates.
    pub open spec fn wf(self) -> bool {
        &&& keys_unique(self.licenses)
        &&& forall|i: int| 0 <= i < self.licenses.len() ==> (#[trigger] self.licenses[i]).wf()
        &&& self.banned_hwids.no_duplicates()
    }
}

/// Record `i` answers a lookup for `key` scoped to product `pid`: the key
/// matches and the record authorizes the product.  A key that exists but
/// lacks the product is no match at all.
pub open spec fn matches_at(ls: Seq<LicenseV>, key: Seq<char>, pid: Seq<char>, i: int) -> bool {
    &&& 0 <= i < ls.len()
    &&& ls[i].key == key
    &&& ls[i].product_ids.contains(pid)
}

/// Some record answers the lookup.
pub open spec fn has_match(ls: Seq<LicenseV>, key: Seq<char>, pid: Seq<char>) -> bool {
    exists|i: int| matches_at(ls, key, pid, i)
}

/// The index of the record answering the lookup; with unique keys there is
/// at most one.
pub open spec fn match_idx(ls: Seq<LicenseV>, key: Seq<char>, pid: Seq<char>) -> int {
    choose|i: int| matches_at(ls, key, pid, i)
}

/// The reported seconds remaining, saturated into `i64`.
pub open spec fn clamp_remaining(d: int) -> i64 {
    if d > i64::MAX {
        i64::MAX
    } else {
        d as i64
    }
}

/// What authentication does to the store, as a function of the model: a
/// failed lookup changes nothing; a successful one activates the record on
/// first use, and either archives it (window closed) or reports the window.
pub open spec fn spec_authenticate(s: StateV, key: Seq<char>, pid: Seq<char>, now: u64) -> (
    StateV,
    AuthOutcome,
) {
    if !has_match(s.licenses, key, pid) {
        (s, AuthOutcome::NotFound)
    } else {
        let i = match_idx(s.licenses, key, pid);
        let l = s.licenses[i].activated(now);
        if l.expired_at(now) {
            (
                StateV { licenses: s.licenses.remove(i), archive: s.archive.push(l), ..s },
                AuthOutcome::Expired,
            )
        } else {
            (
                StateV { licenses: s.licenses.update(i, l), ..s },
                AuthOutcome::Success {
                    license_start: l.start,
                    license_duration: l.duration,
                    time_remaining: clamp_remaining(l.remaining(now)),
                },
            )
        }
    }
}

/// What banning does to the model: an idempotent insert.
pub open spec fn spec_ban(s: StateV, h: Seq<char>) -> StateV {
    if s.banned_hwids.contains(h) {
        s
    } else {
        StateV { banned_hwids: s.banned_hwids.push(h), ..s }
    }
}

/// What unbanning does to the model: an idempotent remove.
pub open spec fn spec_unban(s: StateV, h: Seq<char>) -> StateV {
    if s.banned_hwids.contains(h) {
        StateV { banned_hwids: s.banned_hwids.remove(s.banned_hwids.index_of(h)), ..s }
    } else {
        s
    }
}

/// What the sweep does to the model: expired records move to the archive in
/// one batch, in store order; the rest keep their order.
pub open spec fn spec_sweep(s: StateV, now: u64) -> StateV {
    StateV {
        licenses: s.licenses.filter(|l: LicenseV| !l.expired_at(now)),
        archive: s.archive + s.licenses.filter(|l: LicenseV| l.expired_at(now)),
        ..s
    }
}

/// What restoring persisted records yields: `None` if the records could not
/// have come from a well-formed store, else the store with everything that
/// expired while the service was down already archived.
pub open spec fn spec_load(
    records: Seq<LicenseV>,
    banned: Seq<Seq<char>>,
    now: u64,
) -> Option<StateV> {
    if keys_unique(records) && (forall|i: int|
        0 <= i < records.len() ==> (#[trigger] records[i]).wf()) && banned.no_duplicates() {
        Some(
            spec_sweep(
                StateV { licenses: records, banned_hwids: banned, archive: Seq::empty() },
                now,
            ),
        )
    } else {
        None
    }
}

/// Filtering a store with unique keys and well-formed records keeps both.
pub(crate) proof fn lemma_filter_keeps_wf(ls: Seq<LicenseV>, pred: spec_fn(LicenseV) -> bool)
    requires
        keys_unique(ls),
        forall|i: int| 0 <= i < ls.len() ==> (#[trigger] ls[i]).wf(),
    ensures
        keys_unique(ls.filter(pred)),
        forall|i: int| 0 <= i < ls.filter(pred).len() ==> (#[trigger] ls.filter(pred)[i]).wf(),
    decreases ls.len(),
{
    broadcast use vstd::seq_lib::group_filter_ensures;

    reveal(Seq::filter);
    if ls.len() == 0 {
    } else {
        let prefix = ls.drop_last();
        assert(forall|i: int| 0 <= i < prefix.len() ==> prefix[i] == ls[i]);
        lemma_filter_keeps_wf(prefix, pred);
        let f = prefix.filter(pred);
        if pred(ls.last()) {
            assert(ls.filter(pred) == f.push(ls.last()));
            assert forall|k: int| 0 <= k < f.len() implies f[k].key != ls.last().key by {
                assert(f.contains(f[k]));
                ls.drop_last().lemma_filter_contains_rev(pred, f[k]);
                let j = choose|j: int| 0 <= j < prefix.len() && prefix[j] == f[k];
                assert(ls[j] == f[k]);
                assert(ls[j].key != ls[ls.len() - 1].key);
            }
        } else {
            assert(ls.filter(pred) == f);
        }
    }
}

/// Removing a record keeps unique keys and well-formedness.
pub(crate) proof fn lemma_remove_keeps_wf(ls: Seq<LicenseV>, i: int)
    requires
        keys_unique(ls),
        forall|k: int| 0 <= k < ls.len() ==> (#[trigger] ls[k]).wf(),
        0 <= i < ls.len(),
    ensures
        keys_unique(ls.remove(i)),
        forall|k: int| 0 <= k < ls.remove(i).len() ==> (#[trigger] ls.remove(i)[k]).wf(),
{
    let r = ls.remove(i);
    assert(forall|k: int|
        0 <= k < r.len() ==> r[k] == (if k < i {
            ls[k]
        } else {
            ls[k + 1]
        }));
}

/// Activating the record at `i` keeps unique keys and well-formedness.
pub(crate) proof fn lemma_update_activated_keeps_wf(ls: Seq<LicenseV>, i: int, now: u64)
    requires
        keys_unique(ls),
        forall|k: int| 0 <= k < ls.len() ==> (#[trigger] ls[k]).wf(),
        0 <= i < ls.len(),
        now >= 1,
    ensures
        keys_unique(ls.update(i, ls[i].activated(now))),
        forall|k: int|
            0 <= k < ls.update(i, ls[i].activated(now)).len() ==> (#[trigger] ls.update(
                i,
                ls[i].activated(now),
            )[k]).wf(),
{
    let u = ls.update(i, ls[i].activated(now));
    assert(u[i].key == ls[i].key);
    assert(forall|k: int| 0 <= k < u.len() && k != i ==> u[k] == ls[k]);
}

/// Whether every record is well-formed.
fn licenses_wf_check(records: &Vec<License>) -> (b: bool)
    ensures
        b == (forall|i: int|
            0 <= i < records.deep_view().len() ==> (#[trigger] records.deep_view()[i]).wf()),
{
    let mut i: usize = 0;
    while i < records.len()
        invariant
            i <= records.len(),
            forall|j: int| 0 <= j < i ==> (#[trigger] records.deep_view()[j]).wf(),
        decreases records.len() - i,
    {
        if !records[i].wf_check() {
            proof {
                assert(!records.deep_view()[i as int].wf());
            }
            return false;
        }
        i = i + 1;
    }
    true
}

/// Whether no two records carry the same key.
fn keys_unique_check(records: &Vec<License>) -> (b: bool)
    ensures
        b == keys_unique(records.deep_view()),
{
    let mut i: usize = 0;
    while i < records.len()
        invariant
            i <= records.len(),
            forall|p: int, q: int|
                0 <= p < i && 0 <= q < i && p != q ==> (#[trigger] records.deep_view()[p]).key != (
                #[trigger] records.deep_view()[q]).key,
        decreases records.len() - i,
    {
        let mut j: usize = 0;
        while j < i
            invariant
                j <= i,
                i < records.len(),
                forall|q: int| 0 <= q < j ==> (#[trigger] records.deep_view()[q]).key
                    != records.deep_view()[i as int].key,
            decreases i - j,
        {
            if records[j].key == records[i].key {
                proof {
                    assert(records.deep_view()[j as int].key == records.deep_view()[i as int].key);
                }
                return false;
            }
            j = j + 1;
        }
        i = i + 1;
    }
    true
}

/// Whether the list holds no duplicates.
fn strings_unique(v: &Vec<String>) -> (b: bool)
    ensures
        b == v.deep_view().no_duplicates(),
{
    let mut i: usize = 0;
    while i < v.len()
        invariant
            i <= v.len(),
            forall|p: int, q: int|
                0 <= p < i && 0 <= q < i && p != q ==> v.deep_view()[p] != v.deep_view()[q],
        decreases v.len() - i,
    {
        let mut j: usize = 0;
        while j < i
            invariant
                j <= i,
                i < v.len(),
                forall|q: int| 0 <= q < j ==> v.deep_view()[q] != v.deep_view()[i as int],
            decreases i - j,
        {
            if v[j] == v[i] {
                proof {
                    assert(v.deep_view()[j as int] == v.deep_view()[i as int]);
                }
                return false;
            }
            j = j + 1;
        }
        i = i + 1;
    }
    true
}

impl State {
    /// An empty store.
    pub fn new() -> (r: Self)
        ensures
            r@ == (StateV {
                licenses: Seq::<LicenseV>::empty(),
                banned_hwids: Seq::<Seq<char>>::empty(),
                archive: Seq::<LicenseV>::empty(),
            }),
            r@.wf(),
    {
        let r = State { licenses: Vec::new(), banned_hwids: Vec::new(), archive: Vec::new() };
        proof {
            assert(r.licenses.deep_view() =~= Seq::<LicenseV>::empty());
            assert(r.banned_hwids.deep_view() =~= Seq::<Seq<char>>::empty());
            assert(r.archive.deep_view() =~= Seq::<LicenseV>::empty());
        }
        r
    }

    /// The keys of the active records, for collision checks.
    fn active_keys(&self) -> (r: Vec<String>)
        ensures
            r.deep_view() == keys_of(self@.licenses),
    {
        let mut r: Vec<String> = Vec::new();
        let mut i: usize = 0;
        while i < self.licenses.len()
            invariant
                i <= self.licenses.len(),
                r.deep_view() =~= keys_of(self@.licenses).take(i as int),
            decreases self.licenses.len() - i,
        {
            let ghost pre = r.deep_view();
            r.push(self.licenses[i].key.clone());
            proof {
                assert(r.deep_view() =~= pre.push(self@.licenses[i as int].key));
                assert(r.deep_view() =~= keys_of(self@.licenses).take(i + 1));
            }
            i = i + 1;
        }
        proof {
            assert(r.deep_view() =~= keys_of(self@.licenses));
        }
        r
    }

    /// Appends a fresh, unissued record under `key` with a `days`-day window.
    fn install(&mut self, key: String, days: u64, product_ids: &Vec<String>) -> (r: License)
        requires
            old(self)@.wf(),
            key_format(key@),
            !keys_of(old(self)@.licenses).contains(key@),
            days <= u64::MAX / 86400,
        ensures
            final(self)@.wf(),
            r@ == (LicenseV {
                key: key@,
                used: false,
                start: 0,
                duration: (days * 86400) as u64,
                product_ids: product_ids.deep_view(),
            }),
            final(self)@ == (StateV { licenses: old(self)@.licenses.push(r@), ..old(self)@ }),
    {
        let ghost ls0 = self@.licenses;
        let ghost key_v = key@;
        let mut l = License::new(key, product_ids);
        let c = l.set_days(days);
        self.licenses.push(c);
        proof {
            assert(self.licenses.deep_view() =~= ls0.push(l@));
            assert forall|j: int| 0 <= j < ls0.len() implies ls0[j].key != key_v by {
                assert(keys_of(ls0)[j] == ls0[j].key);
            }
        }
        l
    }

    /// Issues a license valid for `days` days for the given products: a
    /// random fresh key, unique against every active record.  Whether a
    /// unique key is found within the bounded retries depends on the draws.
    pub fn issue(&mut self, days: u64, product_ids: &Vec<String>) -> (r: Result<
        License,
        AuthError,
    >)
        requires
            old(self)@.wf(),
        ensures
            final(self)@.wf(),
            (days > u64::MAX / 86400) <==> (r is Err && r->Err_0 == AuthError::InvalidDuration),
            r is Err ==> final(self)@ == old(self)@ && (r->Err_0 == AuthError::InvalidDuration
                || r->Err_0 == AuthError::ExhaustedRetries),
            r is Ok ==> ({
                let l = r->Ok_0@;
                &&& key_format(l.key)
                &&& !keys_of(old(self)@.licenses).contains(l.key)
                &&& l.used == false
                &&& l.start == 0
                &&& l.duration == days * 86400
                &&& l.product_ids == product_ids.deep_view()
                &&& final(self)@ == (StateV {
                    licenses: old(self)@.licenses.push(l),
                    ..old(self)@
                })
            }),
    {
        if days > u64::MAX / 86400 {
            return Err(AuthError::InvalidDuration);
        }
        let existing = self.active_keys();
        let key = match generate(&existing) {
            Ok(k) => k,
            Err(e) => {
                return Err(e);
            },
        };
        Ok(self.install(key, days, product_ids))
    }

    /// Issues a license with the candidate keys handed in as a list, scanned
    /// by the same bounded retry policy that `issue` applies to its random
    /// draws.  Success and every failure are exact functions of the input.
    pub fn issue_with(
        &mut self,
        candidates: &Vec<String>,
        days: u64,
        product_ids: &Vec<String>,
    ) -> (r: Result<License, AuthError>)
        requires
            old(self)@.wf(),
            all_keys_formatted(candidates.deep_view()),
        ensures
            final(self)@.wf(),
            (days > u64::MAX / 86400) <==> (r is Err && r->Err_0 == AuthError::InvalidDuration),
            days <= u64::MAX / 86400 ==> ((r is Err && r->Err_0 == AuthError::ExhaustedRetries)
                <==> (forall|i: int|
                0 <= i < scan_window(candidates.deep_view().len() as int) ==> keys_of(
                    old(self)@.licenses,
                ).contains(#[trigger] candidates.deep_view()[i]))),
            r is Err ==> final(self)@ == old(self)@ && (r->Err_0 == AuthError::InvalidDuration
                || r->Err_0 == AuthError::ExhaustedRetries),
            r is Ok ==> ({
                let l = r->Ok_0@;
                &&& key_format(l.key)
                &&& !keys_of(old(self)@.licenses).contains(l.key)
                &&& (exists|i: int|
                    0 <= i < scan_window(candidates.deep_view().len() as int)
                        && #[trigger] candidates.deep_view()[i] == l.key)
                &&& l.used == false
                &&& l.start == 0
                &&& l.duration == days * 86400
                &&& l.product_ids == product_ids.deep_view()
                &&& final(self)@ == (StateV {
                    licenses: old(self)@.licenses.push(l),
                    ..old(self)@
                })
            }),
    {
        if days > u64::MAX / 86400 {
            return Err(AuthError::InvalidDuration);
        }
        let existing = self.active_keys();
        let key = match select_key(candidates, &existing) {
            Ok(k) => k,
            Err(e) => {
                return Err(e);
            },
        };
        Ok(self.install(key, days, product_ids))
    }

    /// Appends a record to the archive sink.
    pub fn archive_license(&mut self, license: &License)
        ensures
            final(self)@ == (StateV { archive: old(self)@.archive.push(license@), ..old(self)@ }),
    {
        let ghost a0 = self@.archive;
        self.archive.push(license.clone());
        proof {
            assert(self.archive.deep_view() =~= a0.push(license@));
            assert(final(self)@ =~= (StateV { archive: a0.push(license@), ..old(self)@ }));
        }
    }

    /// Whether this hardware fingerprint is banned.
    pub fn is_banned(&self, hwid: &String) -> (b: bool)
        ensures
            b == self@.banned_hwids.contains(hwid@),
    {
        contains_string(&self.banned_hwids, hwid)
    }

    /// Bans a hardware fingerprint; inserting an already-banned one changes
    /// nothing.
    pub fn ban_hwid(&mut self, hwid: &String)
        requires
            old(self)@.wf(),
        ensures
            final(self)@.wf(),
            final(self)@ == spec_ban(old(self)@, hwid@),
    {
        let ghost b0 = self@.banned_hwids;
        if !contains_string(&self.banned_hwids, hwid) {
            self.banned_hwids.push(hwid.clone());
            proof {
                assert(self.banned_hwids.deep_view() =~= b0.push(hwid@));
                assert(final(self)@ =~= spec_ban(old(self)@, hwid@));
            }
        }
    }

    /// Unbans a hardware fingerprint; removing an absent one is a no-op, not
    /// an error.
    pub fn unban_hwid(&mut self, hwid: &String)
        requires
            old(self)@.wf(),
        ensures
            final(self)@.wf(),
            final(self)@ == spec_unban(old(self)@, hwid@),
    {
        let ghost b0 = self@.banned_hwids;
        let mut i: usize = 0;
        while i < self.banned_hwids.len()
            invariant
                i <= self.banned_hwids.len(),
                self@ == old(self)@,
                old(self)@.wf(),
                forall|j: int| 0 <= j < i ==> b0[j] != hwid@,
                b0 == old(self)@.banned_hwids,
            decreases self.banned_hwids.len() - i,
        {
            if self.banned_hwids[i] == *hwid {
                proof {
                    assert(b0[i as int] == hwid@);
                    assert(b0.contains(hwid@));
                    let m = b0.index_of(hwid@);
                    assert(0 <= m < b0.len() && b0[m] == hwid@);
                    assert(old(self)@.wf());
                    assert(m == i as int);
                }
                self.banned_hwids.remove(i);
                proof {
                    assert(self.banned_hwids.deep_view() =~= b0.remove(i as int));
                    assert(final(self)@ =~= spec_unban(old(self)@, hwid@));
                    assert forall|p: int, q: int|
                        0 <= p < b0.remove(i as int).len() && 0 <= q < b0.remove(i as int).len()
                            && p != q implies b0.remove(i as int)[p] != b0.remove(i as int)[q] by {
                        assert(b0.no_duplicates());
                    }
                }
                return ;
            }
            i = i + 1;
        }
        proof {
            assert(!b0.contains(hwid@));
            assert(final(self)@ == spec_unban(old(self)@, hwid@));
        }
    }

    /// Finds the record answering a lookup for `key` scoped to `product_id`.
    fn find_match(&self, key: &String, product_id: &String) -> (r: Option<usize>)
        ensures
            r is None ==> !has_match(self@.licenses, key@, product_id@),
            r is Some ==> matches_at(self@.licenses, key@, product_id@, r->0 as int),
    {
        let mut i: usize = 0;
        while i < self.licenses.len()
            invariant
                i <= self.licenses.len(),
                forall|j: int| 0 <= j < i ==> !matches_at(self@.licenses, key@, product_id@, j),
            decreases self.licenses.len() - i,
        {
            if self.licenses[i].key == *key && contains_string(
                &self.licenses[i].product_ids,
                product_id,
            ) {
                return Some(i);
            }
            i = i + 1;
        }
        None
    }

    /// Authentication: looks a license up by key and product, activates it
    /// on first use, archives it if its window has closed, and otherwise
    /// reports the window.  The whole effect equals `spec_authenticate` on
    /// the model.
    pub fn authenticate(&mut self, key: &String, product_id: &String, now: u64) -> (r: AuthOutcome)
        requires
            old(self)@.wf(),
            now >= 1,
        ensures
            final(self)@.wf(),
            (final(self)@, r) == spec_authenticate(old(self)@, key@, product_id@, now),
    {
        let ghost s0 = self@;
        match self.find_match(key, product_id) {
            None => AuthOutcome::NotFound,
            Some(i) => {
                proof {
                    assert(has_match(s0.licenses, key@, product_id@));
                    let m = match_idx(s0.licenses, key@, product_id@);
                    assert(matches_at(s0.licenses, key@, product_id@, m));
                    assert(m == i as int);
                }
                let mut l = self.licenses[i].clone();
                l.start(now);
                let total: u128 = l.start as u128 + l.duration as u128;
                if total <= now as u128 {
                    self.licenses.remove(i);
                    self.archive.push(l);
                    proof {
                        let lv = s0.licenses[i as int].activated(now);
                        assert(self.licenses.deep_view() =~= s0.licenses.remove(i as int));
                        assert(self.archive.deep_view() =~= s0.archive.push(lv));
                        assert(final(self)@ =~= (StateV {
                            licenses: s0.licenses.remove(i as int),
                            archive: s0.archive.push(lv),
                            ..s0
                        }));
                        lemma_remove_keeps_wf(s0.licenses, i as int);
                    }
                    AuthOutcome::Expired
                } else {
                    let license_start = l.start;
                    let license_duration = l.duration;
                    let diff: u128 = total - (now as u128);
                    let time_remaining: i64 = if diff > i64::MAX as u128 {
                        i64::MAX
                    } else {
                        diff as i64
                    };
                    proof {
                        let lv = s0.licenses[i as int].activated(now);
                        assert(time_remaining == clamp_remaining(lv.remaining(now)));
                    }
                    self.licenses.set(i, l);
                    proof {
                        let lv = s0.licenses[i as int].activated(now);
                        assert(self.licenses.deep_view() =~= s0.licenses.update(i as int, lv));
                        assert(final(self)@ =~= (StateV {
                            licenses: s0.licenses.update(i as int, lv),
                            ..s0
                        }));
                        lemma_update_activated_keeps_wf(s0.licenses, i as int, now);
                    }
                    AuthOutcome::Success { license_start, license_duration, time_remaining }
                }
            },
        }
    }

    /// The sweep: partitions the store by the derived-expiry rule and moves
    /// every expired record to the archive in one batch, keeping order on
    /// both sides.
    pub fn sweep_expired(&mut self, now: u64)
        requires
            old(self)@.wf(),
        ensures
            final(self)@.wf(),
            final(self)@ == spec_sweep(old(self)@, now),
    {
        let ghost ls0 = self@.licenses;
        let mut active: Vec<License> = Vec::new();
        let mut expired: Vec<License> = Vec::new();
        let mut i: usize = 0;
        while i < self.licenses.len()
            invariant
                i <= self.licenses.len(),
                self@ == old(self)@,
                ls0 == old(self)@.licenses,
                active.deep_view() =~= ls0.take(i as int).filter(
                    |l: LicenseV| !l.expired_at(now),
                ),
                expired.deep_view() =~= ls0.take(i as int).filter(
                    |l: LicenseV| l.expired_at(now),
                ),
            decreases self.licenses.len() - i,
        {
            let ghost pre_a = active.deep_view();
            let ghost pre_e = expired.deep_view();
            if self.licenses[i].is_expired_at(now) {
                expired.push(self.licenses[i].clone());
                proof {
                    assert(expired.deep_view() =~= pre_e.push(ls0[i as int]));
                }
            } else {
                active.push(self.licenses[i].clone());
                proof {
                    assert(active.deep_view() =~= pre_a.push(ls0[i as int]));
                }
            }
            proof {
                broadcast use Seq::lemma_filter_push;

                assert(ls0.take(i + 1) =~= ls0.take(i as int).push(ls0[i as int]));
            }
            i = i + 1;
        }
        proof {
            assert(ls0.take(ls0.len() as int) =~= ls0);
        }
        self.licenses = active;
        self.archive.append(&mut expired);
        proof {
            assert(self.archive.deep_view() =~= old(self)@.archive + ls0.filter(
                |l: LicenseV| l.expired_at(now),
            ));
            assert(final(self)@ =~= spec_sweep(old(self)@, now));
            lemma_filter_keeps_wf(ls0, |l: LicenseV| !l.expired_at(now));
        }
    }

    /// Restores a persisted store: refuses records no well-formed store
    /// could have written, then sweeps, so that a license which expired
    /// while the service was offline is archived before any request is
    /// served.
    pub fn load(records: Vec<License>, banned: Vec<String>, now: u64) -> (r: Option<State>)
        ensures
            (r is Some) == (spec_load(records.deep_view(), banned.deep_view(), now) is Some),
            r is Some ==> r->0@ == spec_load(records.deep_view(), banned.deep_view(), now)->0
                && r->0@.wf(),
    {
        if !licenses_wf_check(&records) {
            return None;
        }
        if !keys_unique_check(&records) {
            return None;
        }
        if !strings_unique(&banned) {
            return None;
        }
        let mut st = State { licenses: records, banned_hwids: banned, archive: Vec::new() };
        proof {
            assert(st@.archive =~= Seq::<LicenseV>::empty());
            assert(st@.wf());
        }
        st.sweep_expired(now);
        Some(st)
    }

    /// The records a caller persists: the active licenses and the ban list,
    /// exactly as the store holds them.
    pub fn snapshot(&self) -> (r: (Vec<License>, Vec<String>))
        ensures
            r.0.deep_view() == self@.licenses,
            r.1.deep_view() == self@.banned_hwids,
    {
        (clone_licenses(&self.licenses), clone_strings(&self.banned_hwids))
    }
}

/// Clones a vector of license records, preserving its model.
pub fn clone_licenses(v: &Vec<License>) -> (r: Vec<License>)
    ensures
        r.deep_view() == v.deep_view(),
{
    let mut r: Vec<License> = Vec::new();
    let mut i: usize = 0;
    while i < v.len()
        invariant
            i <= v.len(),
            r.deep_view() =~= v.deep_view().take(i as int),
        decreases v.len() - i,
    {
        let ghost pre = r.deep_view();
        r.push(v[i].clone());
        proof {
            assert(r.deep_view() =~= pre.push(v.deep_view()[i as int]));
            assert(r.deep_view() =~= v.deep_view().take(i + 1));
        }
        i = i + 1;
    }
    assert(r.deep_view() =~= v.deep_view());
    r
}

} // verus!
