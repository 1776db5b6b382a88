//! The client loader's state machine: what the verification screen does
//! with each event its background check reports.  The background call and
//! the windowing run outside; the decisions live here.

use vstd::prelude::*;
use crate::license::{key_format, license_format_ok};

verus! {

/// The screens of the loader.
#[derive(Clone, Copy, Debug, PartialEq, Eq, Structural)]
pub enum UiState {
    /// A verification is running.
    Verifying,
    /// Waiting for the user to enter a key.
    LicenseInput,
    /// The key was accepted; the window may be shown.
    Verified,
    /// Verification failed in a way the user cannot fix here.
    Error,
}

impl Default for UiState {
    fn default() -> (r: Self)
        ensures
            r == UiState::LicenseInput,
    {
        UiState::LicenseInput
    }
}

/// What a finished verification reports: the license window, or a message.
#[derive(Clone, Debug)]
pub enum LicenseResult {
    Success(u64, u64),
    Error(String),
}

/// What polling the background check can observe: a result arrived, nothing
/// arrived yet, or the channel died.
pub enum RecvEvent {
    Received(LicenseResult),
    Empty,
    Disconnected,
}

/// The loader's decision-relevant state.  `waiting` stands for a pending
/// background verification (the receiving end of its channel lives with the
/// caller that polls it).
pub struct MyApp {
    pub ui_state: UiState,
    pub load: bool,
    pub license: String,
    pub failed_reason: String,
    pub license_timing: (u64, u64),
    pub waiting: bool,
}

impl MyApp {
    /// A fresh loader: at the input screen, nothing pending.
    pub fn new() -> (r: Self)
        ensures
            r.ui_state == UiState::LicenseInput,
            !r.load,
            r.license@ == Seq::<char>::empty(),
            r.failed_reason@ == Seq::<char>::empty(),
            r.license_timing == (0u64, 0u64),
            !r.waiting,
    {
        MyApp {
            ui_state: UiState::LicenseInput,
            load: false,
            license: String::new(),
            failed_reason: String::new(),
            license_timing: (0, 0),
            waiting: false,
        }
    }

    /// Applies the outcome of polling the background verification: a success
    /// shows the verified screen and keeps the window; an error returns to
    /// the input screen with the reason; a dead channel is a hard error.
    /// With nothing pending, or nothing arrived yet, the state is unchanged.
    pub fn check_license_result(&mut self, event: RecvEvent)
        ensures
            !old(self).waiting ==> *final(self) == *old(self),
            old(self).waiting ==> match event {
                RecvEvent::Received(LicenseResult::Success(s, d)) => {
                    &&& final(self).ui_state == UiState::Verified
                    &&& final(self).license_timing == (s, d)
                    &&& !final(self).waiting
                    &&& final(self).license == old(self).license
                    &&& final(self).failed_reason == old(self).failed_reason
                    &&& final(self).load == old(self).load
                },
                RecvEvent::Received(LicenseResult::Error(e)) => {
                    &&& final(self).ui_state == UiState::LicenseInput
                    &&& final(self).failed_reason == e
                    &&& final(self).license@ == Seq::<char>::empty()
                    &&& !final(self).waiting
                    &&& final(self).license_timing == old(self).license_timing
                    &&& final(self).load == old(self).load
                },
                RecvEvent::Empty => *final(self) == *old(self),
                RecvEvent::Disconnected => {
                    &&& final(self).ui_state == UiState::Error
                    &&& final(self).failed_reason@ == "Error: 0xA011"@
                    &&& final(self).license@ == Seq::<char>::empty()
                    &&& !final(self).waiting
                    &&& final(self).license_timing == old(self).license_timing
                    &&& final(self).load == old(self).load
                },
            },
    {
        if self.waiting {
            match event {
                RecvEvent::Received(result) => {
                    self.waiting = false;
                    match result {
                        LicenseResult::Success(license_start, license_duration) => {
                            self.ui_state = UiState::Verified;
                            self.license_timing = (license_start, license_duration);
                        },
                        LicenseResult::Error(error) => {
                            self.failed_reason = error;
                            self.license = String::new();
                            self.ui_state = UiState::LicenseInput;
                        },
                    }
                },
                RecvEvent::Empty => {},
                RecvEvent::Disconnected => {
                    self.waiting = false;
                    self.failed_reason = "Error: 0xA011".to_owned();
                    self.license = String::new();
                    self.ui_state = UiState::Error;
                },
            }
        }
    }

    /// Whether the entered key has the license format.
    pub fn license_regex(&self) -> (b: bool)
        ensures
            b == key_format(self.license@),
    {
        license_format_ok(self.license.as_str())
    }
}

} // verus!
