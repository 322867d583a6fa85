//! Integrity testing: the checksum of each entry's data against the one the
//! archive stores.

use vstd::prelude::*;

verus! {

/// The CRC-32 (IEEE) of a byte sequence.
pub uninterp spec fn crc32_of(data: Seq<u8>) -> u32;

/// Relies on `crc32fast::hash`: the CRC-32 of the bytes, a function of the
/// bytes alone.
#[verifier::external_body]
fn crc32(data: &[u8]) -> (r: u32)
    ensures
        r == crc32_of(data@),
{
    crc32fast::hash(data)
}

/// The counts of an integrity test.
#[derive(Clone, Copy, Debug, PartialEq, Eq, Structural)]
pub struct TestCounts {
    /// Entries read.
    pub tested: u64,
    /// Entries that could not be read or whose checksum differs.
    pub errors: u64,
}

impl TestCounts {
    /// No entry tested yet.
    pub fn new() -> (c: Self)
        ensures
            c.tested == 0 && c.errors == 0,
    {
        TestCounts { tested: 0, errors: 0 }
    }

    /// An entry whose data could not be read.
    pub fn record_read_error(&mut self)
        ensures
            final(self).tested == crate::scheduler::cap(old(self).tested + 1),
            final(self).errors == crate::scheduler::cap(old(self).errors + 1),
    {
        self.tested = self.tested.saturating_add(1);
        self.errors = self.errors.saturating_add(1);
    }

    /// An entry read in full, with the checksum of its data and the one the
    /// archive stores. Returns whether they agree.
    pub fn record_checksum(&mut self, computed: u32, stored: u32) -> (ok: bool)
        ensures
            ok == (computed == stored),
            final(self).tested == crate::scheduler::cap(old(self).tested + 1),
            final(self).errors == if ok {
                old(self).errors
            } else {
                crate::scheduler::cap(old(self).errors + 1)
            },
    {
        self.tested = self.tested.saturating_add(1);
        let ok = computed == stored;
        if !ok {
            self.errors = self.errors.saturating_add(1);
        }
        ok
    }

    /// Whether the test found no error.
    pub fn passed(&self) -> (r: bool)
        ensures
            r == (self.errors == 0),
    {
        self.errors == 0
    }
}

/// Checks an entry's data against its stored checksum, and counts it.
/// Returns whether they agree.
pub fn check_entry(counts: &mut TestCounts, data: &[u8], stored: u32) -> (ok: bool)
    ensures
        ok == (crc32_of(data@) == stored),
        final(counts).tested == crate::scheduler::cap(old(counts).tested + 1),
        final(counts).errors == if ok {
            old(counts).errors
        } else {
            crate::scheduler::cap(old(counts).errors + 1)
        },
{
    let computed = crc32(data);
    counts.record_checksum(computed, stored)
}

} // verus!
