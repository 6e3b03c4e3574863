use electrical_grid_core::errors::PredictionError;
use electrical_grid_core::tensor::{phase_rows, FeatureRow, InputTensor, BATCH_SIZE, FEATURE_WIDTH};
use electrical_grid_core::window::{build_window, Sample, WINDOW_SIZE};

fn feature_row(seed: u32) -> FeatureRow {
    FeatureRow {
        day_sin_bits: 3 * seed,
        minute_sin_bits: 3 * seed + 1,
        scaled_load_bits: 3 * seed + 2,
    }
}

#[test]
fn tensor_shape_is_fixed() {
    let rows = (0..19).map(feature_row).collect();
    let t = InputTensor::from_rows(rows).unwrap();
    assert_eq!(t.shape(), (1, 19, 3));
    assert_eq!((BATCH_SIZE, WINDOW_SIZE, FEATURE_WIDTH), (1, 19, 3));
}

#[test]
fn tensor_rejects_short_and_long_row_counts() {
    let short: Vec<FeatureRow> = (0..18).map(feature_row).collect();
    assert!(matches!(InputTensor::from_rows(short), Err(PredictionError::InsufficientData)));
    let long: Vec<FeatureRow> = (0..20).map(feature_row).collect();
    assert!(matches!(InputTensor::from_rows(long), Err(PredictionError::InsufficientData)));
}

#[test]
fn tensor_flattens_row_major() {
    let rows: Vec<FeatureRow> = (0..19).map(feature_row).collect();
    let t = InputTensor::from_rows(rows.clone()).unwrap();
    let flat = t.flatten();
    assert_eq!(flat.len(), 57);
    for i in 0..19 {
        assert_eq!(flat[3 * i], rows[i].day_sin_bits);
        assert_eq!(flat[3 * i + 1], rows[i].minute_sin_bits);
        assert_eq!(flat[3 * i + 2], rows[i].scaled_load_bits);
        assert_eq!(t.get(i), rows[i]);
    }
}

#[test]
fn phase_rows_follow_the_window() {
    // 19 samples at 15-minute cadence from 2024-01-01T00:00:00Z, constant 100 MW
    let start = 1_704_067_200i64;
    let raw: Vec<Sample> = (0..19)
        .map(|i| Sample { timestamp: start + 900 * i as i64, load_bits: 100.0f32.to_bits() })
        .collect();
    let w = build_window(raw).unwrap();
    let rows = phase_rows(&w).unwrap();
    assert_eq!(rows.len(), 19);
    for (i, row) in rows.iter().enumerate() {
        assert_eq!(row.phases.day_of_year, 1);
        assert_eq!(row.phases.minute_of_day, 15 * i as u32);
        assert_eq!(row.load_bits, 100.0f32.to_bits());
        assert_eq!(f32::from_bits(row.load_bits), 100.0);
    }
}

#[test]
fn phase_rows_surface_bad_timestamps() {
    let mut raw: Vec<Sample> = (0..19)
        .map(|i| Sample { timestamp: 1_704_067_200 + 900 * i as i64, load_bits: 0 })
        .collect();
    raw[7].timestamp = i64::MAX;
    let w = build_window(raw).unwrap();
    assert!(matches!(phase_rows(&w), Err(PredictionError::TimestampConversionError)));
}

#[test]
fn no_tensor_is_built_from_a_short_series() {
    // the error propagation scenario: ten samples never reach tensor assembly
    let raw: Vec<Sample> = (0..10)
        .map(|i| Sample { timestamp: 1_704_067_200 + 900 * i as i64, load_bits: 0 })
        .collect();
    match build_window(raw) {
        Err(PredictionError::InsufficientData) => {},
        other => panic!("expected InsufficientData, got {:?}", other.map(|w| w.len())),
    }
}
