//! Key generation: random 16-character uppercase alphanumeric keys, unique
//! against the active store, with a bounded retry policy on collisions.

use vstd::prelude::*;
use crate::license::key_format;
use crate::types::AuthError;
use rand::Rng;

verus! {

/// How many colliding draws the generator tolerates before it gives up.
pub const LICENSE_REGEN_LIMIT: u32 = 100;

/// Whether `v` holds a string whose characters equal `x`'s.
pub fn contains_string(v: &Vec<String>, x: &String) -> (b: bool)
    ensures
        b == v.deep_view().contains(x@),
{
    let mut i: usize = 0;
    while i < v.len()
        invariant
            i <= v.len(),
            forall|j: int| 0 <= j < i ==> v.deep_view()[j] != x@,
        decreases v.len() - i,
    {
        if v[i] == *x {
            assert(v.deep_view()[i as int] == x@);
            return true;
        }
        i = i + 1;
    }
    false
}

/// Relies on rand's `Alphanumeric` distribution, whose every sample is an
/// ASCII letter or digit, and on `str::to_uppercase`, which maps each of
/// those to the single corresponding uppercase letter or digit: the result
/// is 16 characters from `[A-Z0-9]`.
#[verifier::external_body]
fn draw_candidate() -> (r: String)
    ensures
        key_format(r@),
{
    rand::rng()
        .sample_iter(&rand::distr::Alphanumeric)
        .take(16)
        .map(char::from)
        .collect::<String>()
        .to_uppercase()
}

/// Draws random candidate keys until one does not collide with
/// `existing_keys`, giving up with `ExhaustedRetries` once the limit of
/// collisions is passed.  Whether a unique key is found depends on the
/// draws; what is promised holds of every outcome.
pub fn generate(existing_keys: &Vec<String>) -> (r: Result<String, AuthError>)
    ensures
        r is Ok ==> key_format(r->Ok_0@) && !existing_keys.deep_view().contains(r->Ok_0@),
        r is Err ==> r->Err_0 == AuthError::ExhaustedRetries,
{
    let mut regen_counter: u32 = 0;
    while regen_counter <= LICENSE_REGEN_LIMIT
        invariant
            regen_counter <= LICENSE_REGEN_LIMIT + 1,
        decreases LICENSE_REGEN_LIMIT + 1 - regen_counter,
    {
        let s = draw_candidate();
        if !contains_string(existing_keys, &s) {
            return Ok(s);
        }
        regen_counter = regen_counter + 1;
    }
    Err(AuthError::ExhaustedRetries)
}

/// How many candidates the retry policy looks at before it gives up: the
/// collision limit plus one, or all of them if there are fewer.
pub open spec fn scan_window(n: int) -> int {
    if n <= LICENSE_REGEN_LIMIT + 1 {
        n
    } else {
        LICENSE_REGEN_LIMIT + 1
    }
}

/// Every key in the sequence has the required format.
pub open spec fn all_keys_formatted(keys: Seq<Seq<char>>) -> bool {
    forall|i: int| 0 <= i < keys.len() ==> key_format(#[trigger] keys[i])
}

/// The deterministic core of the retry policy, with the candidate draws
/// handed in as a list: scans them in order and returns the first that does
/// not collide with `existing_keys`, or `ExhaustedRetries` once the window
/// closes.  `generate` behaves like this function on the sequence of draws
/// it made.
pub fn select_key(candidates: &Vec<String>, existing_keys: &Vec<String>) -> (r: Result<
    String,
    AuthError,
>)
    requires
        all_keys_formatted(candidates.deep_view()),
    ensures
        r is Err ==> r->Err_0 == AuthError::ExhaustedRetries,
        r is Err <==> (forall|i: int|
            0 <= i < scan_window(candidates.deep_view().len() as int)
                ==> existing_keys.deep_view().contains(#[trigger] candidates.deep_view()[i])),
        r is Ok ==> exists|i: int|
            {
                &&& 0 <= i < scan_window(candidates.deep_view().len() as int)
                &&& #[trigger] candidates.deep_view()[i] == r->Ok_0@
                &&& !existing_keys.deep_view().contains(candidates.deep_view()[i])
                &&& forall|j: int|
                    0 <= j < i ==> existing_keys.deep_view().contains(
                        #[trigger] candidates.deep_view()[j],
                    )
            },
        r is Ok ==> key_format(r->Ok_0@) && !existing_keys.deep_view().contains(r->Ok_0@),
{
    let mut i: usize = 0;
    while i < candidates.len() && i <= LICENSE_REGEN_LIMIT as usize
        invariant
            all_keys_formatted(candidates.deep_view()),
            i <= candidates.len(),
            i <= LICENSE_REGEN_LIMIT + 1,
            forall|j: int|
                0 <= j < i ==> existing_keys.deep_view().contains(
                    #[trigger] candidates.deep_view()[j],
                ),
        decreases candidates.len() - i,
    {
        if !contains_string(existing_keys, &candidates[i]) {
            let s = candidates[i].clone();
            assert(candidates.deep_view().len() == candidates.len());
            assert(candidates.deep_view()[i as int] == s@);
            assert(key_format(candidates.deep_view()[i as int]));
            return Ok(s);
        }
        i = i + 1;
    }
    Err(AuthError::ExhaustedRetries)
}

} // verus!
