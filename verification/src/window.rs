//! Fixed-length input window construction.

use vstd::prelude::*;

use crate::calendar::timestamp_from_position;
use crate::errors::PredictionError;

verus! {

/// Number of samples the model consumes per forecast.
pub const WINDOW_SIZE: usize = 19;

/// One power-consumption reading: a Unix timestamp in seconds and the
/// measured load in MW, carried as the IEEE-754 bit pattern of a 32-bit
/// float so that the window logic stays purely structural.
#[derive(Clone, Copy, Debug, PartialEq, Eq, Structural)]
pub struct Sample {
    /// Seconds since the Unix epoch, UTC.
    pub timestamp: i64,
    /// Bit pattern of the 32-bit float load value in MW.
    pub load_bits: u32,
}

/// Timestamps of `s` are strictly increasing.
pub open spec fn strictly_ascending(s: Seq<Sample>) -> bool {
    forall|i: int, j: int| 0 <= i < j < s.len() ==> s[i].timestamp < s[j].timestamp
}

/// A chronologically ordered window of exactly [`WINDOW_SIZE`] samples,
/// oldest first. The sample count is a type invariant; the strict timestamp
/// order is inherited from the time-ordered series the market-data client
/// delivers (see [`build_window`]) and is not re-validated here.
pub struct Window {
    samples: Vec<Sample>,
}

impl Window {
    /// The samples of the window, oldest first.
    pub closed spec fn view(&self) -> Seq<Sample> {
        self.samples@
    }

    #[verifier::type_invariant]
    closed spec fn wf(&self) -> bool {
        self.samples@.len() == WINDOW_SIZE
    }

    /// Number of samples; always [`WINDOW_SIZE`].
    pub fn len(&self) -> (n: usize)
        ensures
            n == self@.len(),
            n == WINDOW_SIZE,
    {
        proof {
            use_type_invariant(self);
        }
        self.samples.len()
    }

    /// The sample at position `i`, counted from the oldest.
    pub fn get(&self, i: usize) -> (s: Sample)
        requires
            i < WINDOW_SIZE,
        ensures
            s == self@[i as int],
    {
        proof {
            use_type_invariant(self);
        }
        self.samples[i]
    }
}

/// Keeps the most recent [`WINDOW_SIZE`] points of a chronologically ordered
/// series of load readings (all of them when fewer arrive), preserving their
/// order, and stamps the point at output position `i` with the timestamp
/// `900 · (19 − i)` seconds before `anchor`, the quarter-hour cadence the
/// market data is queried at.
pub fn take_recent_points(loads: &Vec<u32>, anchor: i64) -> (r: Vec<Sample>)
    requires
        anchor >= i64::MIN + 17100,
    ensures
        r@.len() == if loads@.len() < WINDOW_SIZE {
            loads@.len() as int
        } else {
            WINDOW_SIZE as int
        },
        forall|i: int|
            0 <= i < r@.len() ==> #[trigger] r@[i] == (Sample {
                timestamp: (anchor - 900 * (19 - i)) as i64,
                load_bits: loads@[loads@.len() - r@.len() + i],
            }),
        strictly_ascending(r@),
{
    let len = loads.len();
    let start = if len < WINDOW_SIZE {
        0
    } else {
        len - WINDOW_SIZE
    };
    let count = len - start;
    let mut out: Vec<Sample> = Vec::new();
    let mut i: usize = 0;
    while i < count
        invariant
            count == len - start,
            count <= WINDOW_SIZE,
            len == loads@.len(),
            start == if len < WINDOW_SIZE {
                0int
            } else {
                len - WINDOW_SIZE
            },
            i <= count,
            out@.len() == i,
            anchor >= i64::MIN + 17100,
            forall|j: int|
                0 <= j < i ==> #[trigger] out@[j] == (Sample {
                    timestamp: (anchor - 900 * (19 - j)) as i64,
                    load_bits: loads@[start + j],
                }),
        decreases count - i,
    {
        let ts = timestamp_from_position(anchor, i as i32);
        out.push(Sample { timestamp: ts, load_bits: loads[start + i] });
        i = i + 1;
    }
    proof {
        assert forall|a: int, b: int|
            0 <= a < b < out@.len() implies out@[a].timestamp < out@[b].timestamp by {
            assert(out@[a].timestamp == anchor - 900 * (19 - a));
            assert(out@[b].timestamp == anchor - 900 * (19 - b));
        }
    }
    out
}

/// Builds the model input window from a raw, time-ordered series.
///
/// Returns `InsufficientData` exactly when fewer than [`WINDOW_SIZE`] points
/// are available; otherwise keeps only the most recent [`WINDOW_SIZE`] points,
/// preserving their order, so a strictly ascending input yields a strictly
/// ascending window.
pub fn build_window(raw: Vec<Sample>) -> (r: Result<Window, PredictionError>)
    ensures
        r is Err <==> raw@.len() < WINDOW_SIZE,
        r matches Err(e) ==> e == PredictionError::InsufficientData,
        r matches Ok(w) ==> w@ == raw@.subrange(
            raw@.len() - WINDOW_SIZE,
            raw@.len() as int,
        ),
        r matches Ok(w) ==> w@.len() == WINDOW_SIZE,
        r matches Ok(w) ==> (strictly_ascending(raw@) ==> strictly_ascending(w@)),
{
    if raw.len() < WINDOW_SIZE {
        return Err(PredictionError::InsufficientData);
    }
    let start = raw.len() - WINDOW_SIZE;
    let mut samples: Vec<Sample> = Vec::new();
    let mut i = start;
    while i < raw.len()
        invariant
            start <= i <= raw.len(),
            start == raw.len() - WINDOW_SIZE,
            WINDOW_SIZE <= raw@.len(),
            samples@ == raw@.subrange(start as int, i as int),
        decreases raw@.len() - i,
    {
        samples.push(raw[i]);
        proof {
            assert(samples@ =~= raw@.subrange(start as int, i + 1));
        }
        i = i + 1;
    }
    proof {
        assert(samples@ =~= raw@.subrange(raw@.len() - WINDOW_SIZE, raw@.len() as int));
    }
    Ok(Window { samples })
}

} // verus!
