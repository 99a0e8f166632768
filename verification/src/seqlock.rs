//! The sequence-counter protocol that guards the shared record: a writer
//! makes the counter odd before it writes and even again after; a reader
//! accepts a copy only when the counter was the same even value before
//! and after the copy, and tries a bounded number of times.

use vstd::prelude::*;
use crate::shared::{cache_data_fits, lemma_shared_round_trip, SharedCacheData, SHARED_MAGIC, SHARED_VERSION};
use crate::types::CacheDataView;

verus! {

/// How many copies a reader takes before it gives up.
pub const READ_ATTEMPTS: u32 = 3;

impl SharedCacheData {
    /// The record carries the magic number and layout version that this
    /// program writes.
    pub fn has_current_header(&self) -> (res: bool)
        ensures
            res == (self.magic == SHARED_MAGIC && self.version == SHARED_VERSION),
    {
        self.magic == SHARED_MAGIC && self.version == SHARED_VERSION
    }
}

/// The next odd value after `current`, wrapping at `u32::MAX`.
pub open spec fn busy_seq(current: u32) -> u32 {
    if current % 2 == 0 {
        current.wrapping_add(1)
    } else {
        current.wrapping_add(2)
    }
}

/// The value after `writing`, wrapping at `u32::MAX`.
pub open spec fn published_seq(writing: u32) -> u32 {
    writing.wrapping_add(1)
}

/// Both counter reads gave the same even value.
pub open spec fn consistent(before: u32, after: u32) -> bool {
    before == after && before % 2 == 0
}

/// The counter a writer stores before it writes: the next odd value
/// after `current` (wrapping at `u32::MAX`).
pub fn begin_write_seq(current: u32) -> (res: u32)
    ensures
        res == busy_seq(current),
{
    if current % 2 == 0 {
        current.wrapping_add(1)
    } else {
        current.wrapping_add(2)
    }
}

/// The counter a writer stores once the record is written.
pub fn end_write_seq(writing: u32) -> (res: u32)
    ensures
        res == published_seq(writing),
{
    writing.wrapping_add(1)
}

/// A copy taken between two reads of the counter is consistent when both
/// reads gave the same even value.
pub fn snapshot_is_consistent(before: u32, after: u32) -> (res: bool)
    ensures
        res == consistent(before, after),
{
    before == after && before % 2 == 0
}

/// What a reader does after one copy.
pub enum ReadStep {
    /// Keep the copy.
    Accept,
    /// Yield and copy again.
    Retry,
    /// Give up without a copy.
    GiveUp,
}

/// The reader's decision after a copy, given how many copies were already
/// rejected and the counter values read before and after this one.
pub fn read_step(rejected: u32, before: u32, after: u32) -> (res: ReadStep)
    requires
        rejected < READ_ATTEMPTS,
    ensures
        consistent(before, after) ==> res is Accept,
        !consistent(before, after) && rejected + 1 >= READ_ATTEMPTS ==> res is GiveUp,
        !consistent(before, after) && rejected + 1 < READ_ATTEMPTS ==> res is Retry,
{
    if snapshot_is_consistent(before, after) {
        ReadStep::Accept
    } else if rejected + 1 >= READ_ATTEMPTS {
        ReadStep::GiveUp
    } else {
        ReadStep::Retry
    }
}

/// While a write is in progress the counter is odd.
pub proof fn lemma_writer_marks_busy(current: u32)
    ensures
        busy_seq(current) % 2 == 1,
{
    assert(current % 2 == 0 ==> current.wrapping_add(1) % 2 == 1) by (bit_vector);
    assert(current % 2 == 1 ==> current.wrapping_add(2) % 2 == 1) by (bit_vector);
}

/// A finished write leaves the counter even and different from its value
/// before the write, so a reader whose copy overlapped the write sees two
/// different values.
pub proof fn lemma_writer_publishes(current: u32)
    ensures
        published_seq(busy_seq(current)) % 2 == 0,
        published_seq(busy_seq(current)) != current,
{
    assert(current % 2 == 0 ==> current.wrapping_add(1).wrapping_add(1) % 2 == 0
        && current.wrapping_add(1).wrapping_add(1) != current) by (bit_vector);
    assert(current % 2 == 1 ==> current.wrapping_add(2).wrapping_add(1) % 2 == 0
        && current.wrapping_add(2).wrapping_add(1) != current) by (bit_vector);
}

/// A reader never keeps a copy begun while a write was in progress.
pub proof fn lemma_reader_rejects_write_in_progress(current: u32, after: u32)
    ensures
        !consistent(busy_seq(current), after),
{
    lemma_writer_marks_busy(current);
}

/// A reader never keeps a copy that spans a whole write.
pub proof fn lemma_reader_rejects_overlapping_write(current: u32)
    ensures
        !consistent(current, published_seq(busy_seq(current))),
{
    lemma_writer_publishes(current);
}


/// What shared memory holds once a write of the record `rec` has
/// finished, the counter having stood at `current` before it: the record,
/// with the counter published.
pub open spec fn published_record(rec: SharedCacheData, current: u32) -> SharedCacheData {
    SharedCacheData { seq: published_seq(busy_seq(current)), ..rec }
}

/// A read after a finished write, with no writer in between, gives back
/// the data written: the reader finds the current header, its two counter
/// reads agree on an even value so it keeps its first copy, and the copy
/// decodes to the data, except the token hash, which the record does not
/// keep. This holds for data that the record can hold exactly (see
/// [`cache_data_fits`]).
pub proof fn lemma_read_after_write(rec: SharedCacheData, d: CacheDataView, current: u32)
    requires
        rec.encodes(d),
        cache_data_fits(d),
    ensures
        published_record(rec, current).magic == SHARED_MAGIC,
        published_record(rec, current).version == SHARED_VERSION,
        consistent(published_record(rec, current).seq, published_record(rec, current).seq),
        published_record(rec, current).decoded() == (CacheDataView { token_hash: None, ..d }),
{
    lemma_writer_publishes(current);
    lemma_shared_round_trip(rec, d);
    assert(published_record(rec, current).decoded() == rec.decoded());
}

} // verus!
