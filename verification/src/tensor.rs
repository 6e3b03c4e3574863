//! Per-sample feature rows and the fixed-shape model input tensor.
//!
//! The model consumes a rank-3 tensor of shape `[1, 19, 3]`: one batch, one
//! row per window sample, and three features per row (day-of-year sine,
//! minute-of-day sine, min-max scaled load). The sines and the scaling are
//! float work done by the caller; this module fixes the integer skeleton:
//! which calendar phases belong to which sample, and how the rows are laid
//! out in the tensor.

use vstd::prelude::*;

use crate::calendar::CalendarPhases;
use crate::calendar::calendar_phases;
use crate::calendar::day_of_year_of;
use crate::calendar::in_calendar_range;
use crate::calendar::minute_of_day_of;
use crate::errors::PredictionError;
use crate::window::WINDOW_SIZE;
use crate::window::Window;

verus! {

/// Number of features per sample: day sine, minute sine, scaled load.
pub const FEATURE_WIDTH: usize = 3;

/// Batch dimension of the model input; always a single window.
pub const BATCH_SIZE: usize = 1;

/// The integer precursor of one tensor row: the calendar phases of the
/// sample's timestamp together with the bit pattern of its raw load value.
#[derive(Clone, Copy, Debug, PartialEq, Eq, Structural)]
pub struct PhaseRow {
    /// Day-of-year and minute-of-day phases of the sample's timestamp.
    pub phases: CalendarPhases,
    /// Bit pattern of the sample's 32-bit float load value in MW.
    pub load_bits: u32,
}

/// Resolves every sample of the window to its calendar phases, in window
/// order; fails with `TimestampConversionError` exactly when some timestamp
/// cannot be resolved to a calendar instant.
pub fn phase_rows(w: &Window) -> (r: Result<Vec<PhaseRow>, PredictionError>)
    ensures
        r is Ok <==> (forall|i: int|
            0 <= i < w@.len() ==> in_calendar_range(w@[i].timestamp as int)),
        r matches Ok(rows) ==> {
            &&& rows@.len() == w@.len()
            &&& rows@.len() == WINDOW_SIZE
            &&& forall|i: int|
                0 <= i < rows@.len() ==> #[trigger] rows@[i] == (PhaseRow {
                    phases: CalendarPhases {
                        day_of_year: day_of_year_of(w@[i].timestamp as int) as u32,
                        minute_of_day: minute_of_day_of(w@[i].timestamp as int) as u32,
                    },
                    load_bits: w@[i].load_bits,
                })
        },
        r matches Err(e) ==> e == PredictionError::TimestampConversionError,
{
    let n = w.len();
    let mut rows: Vec<PhaseRow> = Vec::new();
    let mut i: usize = 0;
    while i < n
        invariant
            n == w@.len(),
            n == WINDOW_SIZE,
            i <= n,
            rows@.len() == i,
            forall|j: int| 0 <= j < i ==> in_calendar_range(w@[j].timestamp as int),
            forall|j: int|
                0 <= j < i ==> #[trigger] rows@[j] == (PhaseRow {
                    phases: CalendarPhases {
                        day_of_year: day_of_year_of(w@[j].timestamp as int) as u32,
                        minute_of_day: minute_of_day_of(w@[j].timestamp as int) as u32,
                    },
                    load_bits: w@[j].load_bits,
                }),
        decreases n - i,
    {
        let s = w.get(i);
        match calendar_phases(s.timestamp) {
            Ok(p) => {
                rows.push(PhaseRow { phases: p, load_bits: s.load_bits });
            },
            Err(e) => {
                return Err(e);
            },
        }
        i = i + 1;
    }
    Ok(rows)
}

/// One row of the model input tensor, as bit patterns of the three 32-bit
/// float features.
#[derive(Clone, Copy, Debug, PartialEq, Eq, Structural)]
pub struct FeatureRow {
    /// Bit pattern of `sin(2π · day_of_year / 365)`.
    pub day_sin_bits: u32,
    /// Bit pattern of `sin(2π · minute_of_day / 1440)`.
    pub minute_sin_bits: u32,
    /// Bit pattern of the min-max scaled load.
    pub scaled_load_bits: u32,
}

/// The model input: [`WINDOW_SIZE`] feature rows in window order, forming a
/// tensor of shape `[1, 19, 3]`. The row count is a type invariant.
pub struct InputTensor {
    rows: Vec<FeatureRow>,
}

impl InputTensor {
    /// The feature rows, oldest sample first.
    pub closed spec fn view(&self) -> Seq<FeatureRow> {
        self.rows@
    }

    #[verifier::type_invariant]
    closed spec fn wf(&self) -> bool {
        self.rows@.len() == WINDOW_SIZE
    }

    /// Builds the tensor from its rows; fails with `InsufficientData`
    /// exactly when the row count is not [`WINDOW_SIZE`].
    pub fn from_rows(rows: Vec<FeatureRow>) -> (r: Result<InputTensor, PredictionError>)
        ensures
            r is Ok <==> rows@.len() == WINDOW_SIZE,
            r matches Ok(t) ==> t@ == rows@,
            r matches Err(e) ==> e == PredictionError::InsufficientData,
    {
        if rows.len() != WINDOW_SIZE {
            return Err(PredictionError::InsufficientData);
        }
        Ok(InputTensor { rows })
    }

    /// The tensor's shape: batch 1, sequence [`WINDOW_SIZE`], width
    /// [`FEATURE_WIDTH`], independent of its contents.
    pub fn shape(&self) -> (s: (usize, usize, usize))
        ensures
            s.0 == BATCH_SIZE,
            s.1 == WINDOW_SIZE,
            s.2 == FEATURE_WIDTH,
            s.1 == self@.len(),
    {
        proof {
            use_type_invariant(self);
        }
        (BATCH_SIZE, WINDOW_SIZE, FEATURE_WIDTH)
    }

    /// The row at position `i`, counted from the oldest sample.
    pub fn get(&self, i: usize) -> (row: FeatureRow)
        requires
            i < WINDOW_SIZE,
        ensures
            row == self@[i as int],
    {
        proof {
            use_type_invariant(self);
        }
        self.rows[i]
    }

    /// Flattens the tensor in row-major order, the layout the model runtime
    /// consumes: entry `3 * i` is row `i`'s day sine, `3 * i + 1` its minute
    /// sine, and `3 * i + 2` its scaled load.
    pub fn flatten(&self) -> (v: Vec<u32>)
        ensures
            v@.len() == WINDOW_SIZE * FEATURE_WIDTH,
            forall|i: int|
                0 <= i < WINDOW_SIZE ==> {
                    &&& v@[3 * i] == #[trigger] self@[i].day_sin_bits
                    &&& v@[3 * i + 1] == self@[i].minute_sin_bits
                    &&& v@[3 * i + 2] == self@[i].scaled_load_bits
                },
    {
        proof {
            use_type_invariant(self);
        }
        let mut v: Vec<u32> = Vec::new();
        let mut i: usize = 0;
        while i < WINDOW_SIZE
            invariant
                self@.len() == WINDOW_SIZE,
                i <= WINDOW_SIZE,
                v@.len() == 3 * i,
                forall|j: int|
                    0 <= j < i ==> {
                        &&& v@[3 * j] == #[trigger] self@[j].day_sin_bits
                        &&& v@[3 * j + 1] == self@[j].minute_sin_bits
                        &&& v@[3 * j + 2] == self@[j].scaled_load_bits
                    },
            decreases WINDOW_SIZE - i,
        {
            let row = self.rows[i];
            v.push(row.day_sin_bits);
            v.push(row.minute_sin_bits);
            v.push(row.scaled_load_bits);
            i = i + 1;
        }
        v
    }
}

} // verus!
