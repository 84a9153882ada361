//! Turning one directory enumeration into the list of device records.
//!
//! The surrounding binary walks the device-class directory and reports, for
//! each child in enumeration order, either its name and the raw contents of
//! its `brightness` file, or the error that reading it produced. This module
//! holds the scan policy itself: records are built in order, and the whole
//! scan fails on the first entry that cannot be turned into a record (no
//! partial results).

use vstd::prelude::*;
use crate::device::LED;
use crate::device::NewLEDError;
use crate::device::led_of;
use crate::device::parses_as_u8;
use crate::device::trimmed;

verus! {

/// What the filesystem yielded for one child of the device-class directory.
pub enum RawEntry {
    /// The child's name was valid text and its brightness file was read.
    Entry { file_name: String, brightness: String },
    /// Enumerating or reading this child failed before its contents could be
    /// seen.
    Failed { error: NewLEDError },
}

/// Whether a record can be built from this entry.
pub open spec fn entry_ok(e: RawEntry) -> bool {
    e matches RawEntry::Entry { brightness, .. } && parses_as_u8(trimmed(brightness@))
}

/// The error that a bad entry contributes to the scan.
pub open spec fn entry_error_matches(e: RawEntry, err: NewLEDError) -> bool {
    match e {
        RawEntry::Entry { brightness, .. } => err is InvalidBrightness && !parses_as_u8(
            trimmed(brightness@),
        ),
        RawEntry::Failed { error } => err == error,
    }
}

/// The record that a good entry gives rise to.
pub open spec fn led_matches_entry(led: LED, e: RawEntry) -> bool {
    e matches RawEntry::Entry { file_name, brightness } && led_of(led, file_name@, brightness@)
}

/// Builds one device record per entry, in order. The scan succeeds exactly
/// when every entry is well formed; otherwise it fails with the error of the
/// first entry that is not, and yields no partial results.
pub fn get_all_leds(entries: &Vec<RawEntry>) -> (r: Result<Vec<LED>, NewLEDError>)
    ensures
        match r {
            Ok(leds) => {
                &&& leds@.len() == entries@.len()
                &&& forall|i: int| 0 <= i < entries@.len() ==> entry_ok(#[trigger] entries@[i])
                &&& forall|i: int|
                    0 <= i < entries@.len() ==> led_matches_entry(
                        leds@[i],
                        #[trigger] entries@[i],
                    )
            },
            Err(err) => exists|j: int|
                {
                    &&& 0 <= j < entries@.len()
                    &&& !entry_ok(#[trigger] entries@[j])
                    &&& entry_error_matches(entries@[j], err)
                    &&& forall|i: int| 0 <= i < j ==> entry_ok(#[trigger] entries@[i])
                },
        },
{
    let mut leds: Vec<LED> = Vec::new();
    let mut idx: usize = 0;
    while idx < entries.len()
        invariant
            idx <= entries@.len(),
            leds@.len() == idx,
            forall|i: int| 0 <= i < idx ==> entry_ok(#[trigger] entries@[i]),
            forall|i: int| 0 <= i < idx ==> led_matches_entry(leds@[i], #[trigger] entries@[i]),
        decreases entries@.len() - idx,
    {
        match &entries[idx] {
            RawEntry::Failed { error } => {
                let err = error.clone();
                proof {
                    assert(!entry_ok(entries@[idx as int]));
                    assert(entry_error_matches(entries@[idx as int], err));
                }
                return Err(err);
            },
            RawEntry::Entry { file_name, brightness } => {
                match LED::new(file_name.clone(), brightness.clone()) {
                    Ok(led) => {
                        leds.push(led);
                    },
                    Err(e) => {
                        proof {
                            assert(!entry_ok(entries@[idx as int]));
                            assert(entry_error_matches(entries@[idx as int], e));
                        }
                        return Err(e);
                    },
                }
            },
        }
        idx = idx + 1;
    }
    Ok(leds)
}

} // verus!
