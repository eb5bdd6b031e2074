//! The bookkeeping of the capture ring: which samples the real-time thread
//! writes whole and which it drops, which drops the spectrum thread has yet
//! to report, and which samples make up the newest window it reads.
//!
//! The ring holds native-endian `f32`s as bytes. A sample is written only
//! once the ring has room for all of its bytes: a partial sample would shift
//! the byte stream and every value the reader decodes after it.

use vstd::prelude::*;

verus! {

/// The bytes one sample takes in the ring.
pub const SAMPLE_BYTES: usize = 4;

/// Which samples of one write fit in the ring, and how many did not.
#[derive(Debug, Clone, Copy, PartialEq, Eq, Structural)]
pub struct SampleAdmission {
    dropped: u64,
}

impl SampleAdmission {
    /// A write that has dropped nothing yet.
    pub fn new() -> (admission: SampleAdmission)
        ensures
            admission.dropped() == 0,
    {
        SampleAdmission { dropped: 0 }
    }

    /// The samples dropped so far because the ring was full.
    pub closed spec fn dropped(&self) -> nat {
        self.dropped as nat
    }

    /// The samples dropped so far because the ring was full.
    pub fn dropped_count(&self) -> (dropped: u64)
        ensures
            dropped == self.dropped(),
    {
        self.dropped
    }

    /// Whether the next sample is written, given the bytes the ring has free.
    /// A sample that does not fit whole is dropped, and counted.
    pub fn take_sample(&mut self, space: usize) -> (write: bool)
        requires
            old(self).dropped() < u64::MAX,
        ensures
            write == (space >= SAMPLE_BYTES),
            final(self).dropped() == old(self).dropped() + if write {
                0nat
            } else {
                1nat
            },
    {
        if space < SAMPLE_BYTES {
            self.dropped = self.dropped + 1;
            false
        } else {
            true
        }
    }
}

/// The samples a run of [`SampleAdmission::take_sample`] decisions let
/// through.
pub open spec fn written_count(writes: Seq<bool>) -> nat
    decreases writes.len(),
{
    if writes.len() == 0 {
        0
    } else {
        written_count(writes.drop_last()) + if writes.last() {
            1nat
        } else {
            0nat
        }
    }
}

/// Whether `writes` are the decisions [`SampleAdmission::take_sample`] makes
/// over one batch of samples, written into a ring that had `space` bytes
/// free: each sample is judged on the space left by the samples written
/// before it, every one of which took its bytes.
pub open spec fn is_batch(space: nat, writes: Seq<bool>) -> bool {
    forall|i: int|
        0 <= i < writes.len() ==> #[trigger] writes[i] == (space - SAMPLE_BYTES * written_count(
            writes.take(i),
        ) >= SAMPLE_BYTES)
}

/// The first `i` decisions of a batch write the first `min(i, space / 4)`
/// samples.
proof fn lemma_batch_prefix(space: nat, writes: Seq<bool>, i: int)
    requires
        is_batch(space, writes),
        0 <= i <= writes.len(),
    ensures
        written_count(writes.take(i)) == if i <= space / SAMPLE_BYTES as nat {
            i
        } else {
            (space / SAMPLE_BYTES as nat) as int
        },
        forall|j: int| 0 <= j < i ==> (#[trigger] writes[j] <==> j < space / SAMPLE_BYTES as nat),
    decreases i,
{
    if i == 0 {
        assert(writes.take(0).len() == 0);
    } else {
        lemma_batch_prefix(space, writes, i - 1);
        let k: int = (space / SAMPLE_BYTES as nat) as int;
        assert(4 * k <= space < 4 * k + 4) by {
            vstd::arithmetic::div_mod::lemma_fundamental_div_mod(space as int, 4);
        }
        let before = writes.take(i - 1);
        let after = writes.take(i);
        assert(after.drop_last() =~= before);
        assert(after.last() == writes[i - 1]);
        assert(writes[i - 1] == (space - SAMPLE_BYTES * written_count(before) >= SAMPLE_BYTES));
        if i - 1 < k {
            assert(written_count(before) == i - 1);
            assert(space - 4 * (i - 1) >= 4);
        } else {
            assert(written_count(before) == k);
        }
    }
}

/// A batch of `n` samples written into a ring with `space` bytes free
/// writes the first `min(n, space / 4)` samples whole, in order, and drops
/// the rest, which are what the overrun count grows by. The space falls by
/// four bytes per sample written, and once the ring is full the bytes too
/// few to hold a sample are left unwritten.
pub proof fn law_a_batch_writes_the_whole_samples_that_fit(space: nat, writes: Seq<bool>)
    requires
        is_batch(space, writes),
    ensures
        forall|i: int| 0 <= i < writes.len() ==> (#[trigger] writes[i] <==> i < space / SAMPLE_BYTES as nat),
        written_count(writes) == if writes.len() <= space / SAMPLE_BYTES as nat {
            writes.len()
        } else {
            space / SAMPLE_BYTES as nat
        },
        writes.len() - written_count(writes) == if writes.len() <= space / SAMPLE_BYTES as nat {
            0
        } else {
            writes.len() - space / SAMPLE_BYTES as nat
        },
        SAMPLE_BYTES * written_count(writes) <= space,
        writes.len() > space / SAMPLE_BYTES as nat ==> space - SAMPLE_BYTES * written_count(writes)
            == space % SAMPLE_BYTES as nat,
{
    lemma_batch_prefix(space, writes, writes.len() as int);
    assert(writes.take(writes.len() as int) =~= writes);
}

/// The overruns the spectrum thread has already reported.
///
/// The writer's count only ever grows; this is what turns it into a delta
/// per tick.
#[derive(Debug, Clone, Copy, PartialEq, Eq, Structural)]
pub struct OverrunReport {
    reported: u64,
}

impl OverrunReport {
    /// Nothing reported yet.
    pub fn new() -> (report: OverrunReport)
        ensures
            report.reported() == 0,
    {
        OverrunReport { reported: 0 }
    }

    /// The overrun count as of the last report.
    pub closed spec fn reported(&self) -> nat {
        self.reported as nat
    }

    /// The samples dropped since the last report, given the writer's count
    /// now, or `None` when there are none to report.
    pub fn report(&mut self, overruns: u64) -> (news: Option<u64>)
        ensures
            overruns > old(self).reported() ==> news == Some((overruns - old(self).reported()) as u64)
                && final(self).reported() == overruns,
            overruns <= old(self).reported() ==> news is None && *final(self) == *old(self),
    {
        if overruns > self.reported {
            let news = overruns - self.reported;
            self.reported = overruns;
            Some(news)
        } else {
            None
        }
    }
}

/// Where the newest window lies among the bytes the ring holds: the bytes
/// to skip past, and the whole samples that follow them.
#[derive(Debug, Clone, Copy, PartialEq, Eq, Structural)]
pub struct WindowRead {
    pub skip_bytes: usize,
    pub samples: usize,
}

/// The newest window of at most `window` samples among `readable_bytes`.
///
/// The reader skips ahead to the newest window on every tick: the samples
/// before it belong to windows already analysed, or too late to analyse.
/// Only whole samples are counted, and the skip is a whole number of them,
/// so the reader stays aligned with the writer's stream.
pub fn latest_window(readable_bytes: usize, window: usize) -> (read: WindowRead)
    ensures
        read.samples == if readable_bytes / SAMPLE_BYTES <= window {
            readable_bytes / SAMPLE_BYTES
        } else {
            window
        },
        read.skip_bytes == (readable_bytes / SAMPLE_BYTES - read.samples) * SAMPLE_BYTES,
        read.skip_bytes + read.samples * SAMPLE_BYTES <= readable_bytes,
{
    let whole = readable_bytes / SAMPLE_BYTES;
    let samples = if whole <= window {
        whole
    } else {
        window
    };
    WindowRead { skip_bytes: (whole - samples) * SAMPLE_BYTES, samples }
}

} // verus!
