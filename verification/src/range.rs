//! The band of frequencies that the operator allows the transceiver to be
//! tuned to.

use vstd::prelude::*;
use crate::error::SerialError;

verus! {

/// The lowest frequency allowed while the operator has set none, in Hz.
pub const DEFAULT_MIN_HZ: u64 = 7_000_000;

/// The highest frequency allowed while the operator has set none, in Hz.
pub const DEFAULT_MAX_HZ: u64 = 29_700_000;

/// The allowed frequencies, both ends included, in Hz. A range whose lower
/// end lies above its upper end allows nothing.
#[derive(Debug, Clone, Copy, PartialEq, Eq)]
pub struct FrequencyRange {
    pub min_hz: u64,
    pub max_hz: u64,
}

/// Why a tune request was turned down before any command was sent.
#[derive(Debug, Clone, Copy, PartialEq, Eq)]
pub enum TuneError {
    /// The frequency lies outside the allowed range.
    OutOfRange,
    /// The serial link cannot take commands.
    Serial(SerialError),
}

impl FrequencyRange {
    /// `freq_hz` lies within the range.
    pub open spec fn contains(self, freq_hz: u64) -> bool {
        self.min_hz <= freq_hz <= self.max_hz
    }

    /// The range from `min_hz` to `max_hz`.
    pub fn new(min_hz: u64, max_hz: u64) -> (range: Self)
        ensures
            range == (FrequencyRange { min_hz, max_hz }),
    {
        FrequencyRange { min_hz, max_hz }
    }

    /// Whether the transceiver may be tuned to `freq_hz`.
    pub fn allows(&self, freq_hz: u64) -> (allowed: bool)
        ensures
            allowed == self.contains(freq_hz),
    {
        self.min_hz <= freq_hz && freq_hz <= self.max_hz
    }
}

impl Default for FrequencyRange {
    /// The range in force while the operator has set none.
    fn default() -> (range: Self)
        ensures
            range == (FrequencyRange { min_hz: DEFAULT_MIN_HZ, max_hz: DEFAULT_MAX_HZ }),
    {
        FrequencyRange { min_hz: DEFAULT_MIN_HZ, max_hz: DEFAULT_MAX_HZ }
    }
}

} // verus!
