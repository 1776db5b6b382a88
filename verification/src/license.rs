//! The license record and its model: key format, activation, expiry.

use vstd::prelude::*;
use vstd::string::StrSliceExecFns;

verus! {

/// One issued license: a 16-character uppercase alphanumeric key, the
/// products it authorizes, and its activation window.  `start` is 0 until the
/// first successful authentication fixes it; `duration` is set at issue time
/// and never changes.
#[derive(Debug)]
pub struct License {
    pub key: String,
    pub used: bool,
    pub start: u64,
    pub duration: u64,
    pub product_ids: Vec<String>,
}

/// The mathematical model of a `License`: the same fields over sequences.
#[verifier::ext_equal]
pub ghost struct LicenseV {
    pub key: Seq<char>,
    pub used: bool,
    pub start: u64,
    pub duration: u64,
    pub product_ids: Seq<Seq<char>>,
}

impl View for License {
    type V = LicenseV;

    open spec fn view(&self) -> LicenseV {
        LicenseV {
            key: self.key@,
            used: self.used,
            start: self.start,
            duration: self.duration,
            product_ids: self.product_ids.deep_view(),
        }
    }
}

impl DeepView for License {
    type V = LicenseV;

    open spec fn deep_view(&self) -> LicenseV {
        self.view()
    }
}

/// A character a license key may contain: an uppercase letter or a digit.
pub open spec fn is_key_char(c: char) -> bool {
    ('A' <= c && c <= 'Z') || ('0' <= c && c <= '9')
}

/// The key format: exactly 16 characters, uppercase letters and digits only.
pub open spec fn key_format(s: Seq<char>) -> bool {
    &&& s.len() == 16
    &&& forall|i: int| 0 <= i < s.len() ==> is_key_char(#[trigger] s[i])
}

impl LicenseV {
    /// A well-formed record: the key has the required format, and a license
    /// that has been used has its start fixed.
    pub open spec fn wf(self) -> bool {
        &&& key_format(self.key)
        &&& self.used ==> self.start > 0
    }

    /// Expiry is derived, never stored: a license is expired once it has been
    /// activated and the clock has reached the end of its window.
    pub open spec fn expired_at(self, now: u64) -> bool {
        self.used && self.start + self.duration <= now
    }

    /// The record after a successful lookup at time `now`: the first one
    /// fixes `used` and `start`, later ones change nothing.
    pub open spec fn activated(self, now: u64) -> LicenseV {
        if self.used {
            self
        } else {
            LicenseV { used: true, start: now, ..self }
        }
    }

    /// Seconds of the window left at time `now` (negative once expired).
    pub open spec fn remaining(self, now: u64) -> int {
        self.start + self.duration - now
    }
}

/// Checks the key format `^[A-Z0-9]{16}$`: exactly 16 characters, each an
/// uppercase letter or a digit.
pub fn license_format_ok(s: &str) -> (b: bool)
    ensures
        b == key_format(s@),
{
    let n = s.unicode_len();
    if n != 16 {
        return false;
    }
    let mut i: usize = 0;
    while i < 16
        invariant
            s@.len() == 16,
            i <= 16,
            forall|j: int| 0 <= j < i ==> is_key_char(#[trigger] s@[j]),
        decreases 16 - i,
    {
        let c = s.get_char(i);
        let v = c as u32;
        if !((65 <= v && v <= 90) || (48 <= v && v <= 57)) {
            assert(!is_key_char(c));
            return false;
        }
        assert(is_key_char(c));
        i = i + 1;
    }
    true
}

/// Clones a vector of strings, preserving its contents.
pub fn clone_strings(v: &Vec<String>) -> (r: Vec<String>)
    ensures
        r.deep_view() == v.deep_view(),
{
    let mut r: Vec<String> = Vec::new();
    let mut i: usize = 0;
    while i < v.len()
        invariant
            i <= v.len(),
            r.deep_view() =~= v.deep_view().take(i as int),
        decreases v.len() - i,
    {
        let ghost pre = r.deep_view();
        r.push(v[i].clone());
        proof {
            assert(r.deep_view() =~= pre.push(v.deep_view()[i as int]));
            assert(r.deep_view() =~= v.deep_view().take(i + 1));
        }
        i = i + 1;
    }
    assert(r.deep_view() =~= v.deep_view());
    r
}

impl Clone for License {
    /// Clones the record; the copy has the same model.
    fn clone(&self) -> (r: Self)
        ensures
            r@ == self@,
    {
        License {
            key: self.key.clone(),
            used: self.used,
            start: self.start,
            duration: self.duration,
            product_ids: clone_strings(&self.product_ids),
        }
    }
}

impl License {
    /// A new, unissued record: not used, window not yet fixed.
    pub fn new(key: String, product_ids: &Vec<String>) -> (r: Self)
        ensures
            r@ == (LicenseV {
                key: key@,
                used: false,
                start: 0,
                duration: 0,
                product_ids: product_ids.deep_view(),
            }),
    {
        License {
            key,
            used: false,
            start: 0,
            duration: 0,
            product_ids: clone_strings(product_ids),
        }
    }

    /// Fixes the duration to `days` days of seconds and returns a copy of the
    /// record.  The caller must have ruled overflow out.
    pub fn set_days(&mut self, days: u64) -> (r: Self)
        requires
            days <= u64::MAX / 86400,
        ensures
            final(self)@ == (LicenseV { duration: (days * 86400) as u64, ..old(self)@ }),
            r@ == final(self)@,
    {
        assert(days * 24 * 60 * 60 == days * 86400);
        assert(days * 86400 <= u64::MAX);
        self.duration = days * 24 * 60 * 60;
        self.clone()
    }

    /// Whether the record is well-formed: key format and, once used, a fixed
    /// start.
    pub fn wf_check(&self) -> (b: bool)
        ensures
            b == self@.wf(),
    {
        license_format_ok(self.key.as_str()) && (!self.used || self.start >= 1)
    }

    /// Whether the license is expired at `now`.  Expiry is derived, never
    /// stored.
    pub fn is_expired_at(&self, now: u64) -> (b: bool)
        ensures
            b == self@.expired_at(now),
    {
        self.used && (self.start as u128 + self.duration as u128 <= now as u128)
    }

    /// Activation: the first successful authentication marks the license used
    /// and opens its window at `now`.
    pub fn start(&mut self, now: u64)
        requires
            now >= 1,
        ensures
            final(self)@ == old(self)@.activated(now),
            final(self).used,
    {
        if !self.used {
            self.used = true;
            self.start = now;
        }
    }
}

} // verus!
